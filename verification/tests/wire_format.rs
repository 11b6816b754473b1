//! The frames that the library builds and reads, held against literal bytes
//! and against what the codec crate builds and reads itself.
use ads_client::codec::encode_request;
use ads_client::codec::request_fits;
use ads_client::codec::sumup_read_layout_ok;
use ads_client::proto::AddDeviceNotificationRequest;
use ads_client::proto::AdsState;
use ads_client::proto::AdsTransMode;
use ads_client::proto::AmsAddress;
use ads_client::proto::CommandID;
use ads_client::proto::DeleteDeviceNotificationRequest;
use ads_client::proto::ReadRequest;
use ads_client::proto::ReadWriteRequest;
use ads_client::proto::Request;
use ads_client::proto::Response;
use ads_client::proto::WriteControlRequest;
use ads_client::proto::WriteRequest;
use ads_client::reader::decode_header;
use ads_client::reader::decode_response;
use ads_client::reader::frame_length;
use ads_client::reader::read;
use ads_client::reader::ReadError;
use ads_client::request_factory;
use ads_proto::ads_services::system_services as services;
use ads_proto::error::AdsError;
use ads_proto::proto::ams_address::AmsAddress as WireAddress;
use ads_proto::proto::ams_address::AmsNetId;
use ads_proto::proto::ams_header::AmsHeader as WireHeader;
use ads_proto::proto::ams_header::AmsTcpHeader;
use ads_proto::proto::proto_traits::ReadFrom;
use ads_proto::proto::proto_traits::WriteTo;
use ads_proto::proto::request as wire_request;
use ads_proto::proto::response as wire_response;
use ads_proto::proto::state_flags::StateFlags;
use std::cell::Cell;

fn wf_target() -> AmsAddress {
    AmsAddress::new([192, 168, 1, 1, 1, 1], 30000)
}

fn wf_source() -> AmsAddress {
    AmsAddress::new([192, 168, 1, 1, 1, 2], 30000)
}

fn wf_wire(address: &AmsAddress) -> WireAddress {
    WireAddress::new(AmsNetId::from(address.net_id), address.port)
}

/// The frame that the codec crate builds for a request of its own.
fn wf_reference_frame(invoke_id: u32, request: wire_request::Request) -> Vec<u8> {
    let header = WireHeader::new(
        wf_wire(&wf_target()),
        wf_wire(&wf_source()),
        StateFlags::req_default(),
        invoke_id,
        request,
    );
    let mut frame = Vec::new();
    AmsTcpHeader::from(header).write_to(&mut frame).unwrap();
    frame
}

/// The bytes of an AMS header that carries a response, as the controller sends it.
fn wf_response_bytes(invoke_id: u32, response: wire_response::Response) -> Vec<u8> {
    let header = WireHeader::new(
        wf_wire(&wf_source()),
        wf_wire(&wf_target()),
        StateFlags::resp_default(),
        invoke_id,
        response,
    );
    let mut bytes = Vec::new();
    header.write_to(&mut bytes).unwrap();
    bytes
}

#[test]
fn read_request_frame_matches_literal_bytes() {
    let request = Request::Read(ReadRequest { index_group: 259, index_offset: 259, length: 4 });
    let frame = encode_request(&wf_target(), &wf_source(), 111, &request);
    let expected: Vec<u8> = vec![
        0, 0, 44, 0, 0, 0, 192, 168, 1, 1, 1, 1, 48, 117, 192, 168, 1, 1, 1, 2, 48, 117, 2, 0, 4,
        0, 12, 0, 0, 0, 0, 0, 0, 0, 111, 0, 0, 0, 3, 1, 0, 0, 3, 1, 0, 0, 4, 0, 0, 0,
    ];
    assert_eq!(frame, expected);
}

#[test]
fn read_state_frame_has_empty_data_section() {
    let frame = encode_request(&wf_target(), &wf_source(), 7, &Request::ReadState);
    let expected: Vec<u8> = vec![
        0, 0, 32, 0, 0, 0, 192, 168, 1, 1, 1, 1, 48, 117, 192, 168, 1, 1, 1, 2, 48, 117, 4, 0, 4,
        0, 0, 0, 0, 0, 0, 0, 0, 0, 7, 0, 0, 0,
    ];
    assert_eq!(frame, expected);
}

#[test]
fn read_device_info_frame_matches_codec() {
    let frame = encode_request(&wf_target(), &wf_source(), 1, &Request::ReadDeviceInfo);
    let reference = wf_reference_frame(
        1,
        wire_request::Request::ReadDeviceInfo(wire_request::ReadDeviceInfoRequest::new()),
    );
    assert_eq!(frame, reference);
    assert_eq!(frame[22], 1);
    assert_eq!(frame.len(), 38);
}

#[test]
fn write_request_frame_matches_literal_bytes() {
    let request = Request::Write(
        WriteRequest { index_group: 0xF005, index_offset: 9, data: vec![0xFA, 0xFF] },
    );
    let frame = encode_request(&wf_target(), &wf_source(), 2, &request);
    let data: Vec<u8> = vec![0x05, 0xF0, 0, 0, 9, 0, 0, 0, 2, 0, 0, 0, 0xFA, 0xFF];
    assert_eq!(&frame[38..], data.as_slice());
    assert_eq!(&frame[2..6], &[46, 0, 0, 0]);
    assert_eq!(&frame[22..24], &[3, 0]);
    assert_eq!(&frame[26..30], &[14, 0, 0, 0]);
}

#[test]
fn read_write_request_frame_matches_literal_bytes() {
    let request = Request::ReadWrite(
        ReadWriteRequest {
            index_group: 0xF003,
            index_offset: 0,
            read_length: 4,
            data: vec![77, 97, 105, 110],
        },
    );
    let frame = encode_request(&wf_target(), &wf_source(), 3, &request);
    let data: Vec<u8> =
        vec![0x03, 0xF0, 0, 0, 0, 0, 0, 0, 4, 0, 0, 0, 4, 0, 0, 0, 77, 97, 105, 110];
    assert_eq!(&frame[38..], data.as_slice());
    assert_eq!(&frame[22..24], &[9, 0]);
    assert_eq!(&frame[34..38], &[3, 0, 0, 0]);
}

#[test]
fn write_control_request_frame_matches_literal_bytes() {
    let request = Request::WriteControl(
        WriteControlRequest {
            ads_state: AdsState::AdsStateRun,
            device_state: 0x0102,
            length: 0,
            data: Vec::new(),
        },
    );
    let frame = encode_request(&wf_target(), &wf_source(), 4, &request);
    let data: Vec<u8> = vec![5, 0, 2, 1, 0, 0, 0, 0];
    assert_eq!(&frame[38..], data.as_slice());
    assert_eq!(&frame[22..24], &[5, 0]);
}

#[test]
fn add_device_notification_frame_matches_literal_bytes() {
    let request = Request::AddDeviceNotification(
        AddDeviceNotificationRequest {
            index_group: 0xF005,
            index_offset: 0x11223344,
            length: 2,
            transmission_mode: AdsTransMode::OnChange,
            max_delay: 1,
            cycle_time: 1,
        },
    );
    let frame = encode_request(&wf_target(), &wf_source(), 5, &request);
    let mut data: Vec<u8> = vec![
        0x05, 0xF0, 0, 0, 0x44, 0x33, 0x22, 0x11, 2, 0, 0, 0, 4, 0, 0, 0, 1, 0, 0, 0, 1, 0, 0, 0,
    ];
    data.extend_from_slice(&[0u8; 16]);
    assert_eq!(&frame[38..], data.as_slice());
    assert_eq!(&frame[22..24], &[6, 0]);
}

#[test]
fn delete_device_notification_frame_matches_literal_bytes() {
    let request = Request::DeleteDeviceNotification(DeleteDeviceNotificationRequest { handle: 258 });
    let frame = encode_request(&wf_target(), &wf_source(), 6, &request);
    assert_eq!(&frame[38..], &[2, 1, 0, 0]);
    assert_eq!(&frame[22..24], &[7, 0]);
}

#[test]
fn every_request_frame_is_read_back_by_the_codec() {
    let requests = vec![
        Request::ReadDeviceInfo,
        Request::ReadState,
        Request::Read(ReadRequest { index_group: 1, index_offset: 2, length: 3 }),
        Request::Write(WriteRequest { index_group: 4, index_offset: 5, data: vec![6, 7, 8] }),
        Request::WriteControl(
            WriteControlRequest {
                ads_state: AdsState::AdsStateStop,
                device_state: 9,
                length: 2,
                data: vec![1, 2],
            },
        ),
        Request::AddDeviceNotification(
            AddDeviceNotificationRequest {
                index_group: 10,
                index_offset: 11,
                length: 12,
                transmission_mode: AdsTransMode::Cyclic,
                max_delay: 13,
                cycle_time: 14,
            },
        ),
        Request::DeleteDeviceNotification(DeleteDeviceNotificationRequest { handle: 15 }),
        Request::ReadWrite(
            ReadWriteRequest { index_group: 16, index_offset: 17, read_length: 18, data: vec![19] },
        ),
    ];
    let expected = vec![
        wire_request::Request::ReadDeviceInfo(wire_request::ReadDeviceInfoRequest::new()),
        wire_request::Request::ReadState(wire_request::ReadStateRequest::new()),
        wire_request::Request::Read(wire_request::ReadRequest::new(1, 2, 3)),
        wire_request::Request::Write(wire_request::WriteRequest::new(4, 5, vec![6, 7, 8])),
        wire_request::Request::WriteControl(
            wire_request::WriteControlRequest::new(
                ads_proto::proto::ads_state::AdsState::AdsStateStop,
                9,
                2,
                vec![1, 2],
            ),
        ),
        wire_request::Request::AddDeviceNotification(
            wire_request::AddDeviceNotificationRequest::new(
                10,
                11,
                12,
                ads_proto::proto::ads_transition_mode::AdsTransMode::Cyclic,
                13,
                14,
            ),
        ),
        wire_request::Request::DeleteDeviceNotification(
            wire_request::DeleteDeviceNotificationRequest::new(15),
        ),
        wire_request::Request::ReadWrite(wire_request::ReadWriteRequest::new(16, 17, 18, vec![19])),
    ];
    for (n, request) in requests.iter().enumerate() {
        assert!(request_fits(request));
        let frame = encode_request(&wf_target(), &wf_source(), 40 + n as u32, request);
        assert_eq!(frame, wf_reference_frame(40 + n as u32, expected[n].clone()));
        let mut tcp = AmsTcpHeader::read_from(&mut frame.as_slice()).unwrap();
        assert_eq!(tcp.length as usize, frame.len() - 6);
        assert_eq!(tcp.ams_header.invoke_id(), 40 + n as u32);
        assert_eq!(tcp.ams_header.request().unwrap(), expected[n]);
    }
}

#[test]
fn framing_round_trip_on_a_request() {
    let request = Request::Read(ReadRequest { index_group: 0xF005, index_offset: 77, length: 2 });
    let frame = encode_request(&wf_target(), &wf_source(), 0xDEADBEEF, &request);
    let length = frame_length(&frame[..6]).unwrap();
    assert_eq!(length as usize, frame.len() - 6);
    let header = decode_header(&frame[6..]).unwrap();
    assert_eq!(header.command_id, CommandID::Read);
    assert_eq!(header.state_flags, 4);
    assert_eq!(header.ads_error, 0);
    assert_eq!(header.invoke_id, 0xDEADBEEF);
    assert_eq!(header.data, vec![0x05, 0xF0, 0, 0, 77, 0, 0, 0, 2, 0, 0, 0]);
}

#[test]
fn frame_length_reads_little_endian_behind_reserved_bytes() {
    assert_eq!(frame_length(&[0, 0, 44, 0, 0, 0]), Some(44));
    assert_eq!(frame_length(&[9, 9, 1, 2, 3, 4]), Some(0x04030201));
    assert_eq!(frame_length(&[0, 0, 0xFF, 0xFF, 0xFF, 0xFF, 5]), Some(u32::MAX));
}

#[test]
fn frame_length_of_a_short_prefix_is_nothing() {
    assert_eq!(frame_length(&[]), None);
    assert_eq!(frame_length(&[0, 0, 44, 0, 0]), None);
}

#[test]
fn header_fields_are_read_at_their_offsets() {
    let bytes: Vec<u8> = vec![
        192, 168, 1, 1, 1, 1, 48, 117, 192, 168, 1, 1, 1, 2, 48, 117, 2, 0, 5, 0, 12, 0, 0, 0, 13,
        0, 0, 0, 111, 0, 0, 0, 3, 1, 0, 0, 3, 1, 0, 0, 4, 0, 0, 0,
    ];
    let header = decode_header(&bytes).unwrap();
    assert_eq!(header.command_id, CommandID::Read);
    assert_eq!(header.state_flags, 5);
    assert_eq!(header.ads_error, 13);
    assert_eq!(header.invoke_id, 111);
    assert_eq!(header.data, vec![3, 1, 0, 0, 3, 1, 0, 0, 4, 0, 0, 0]);
}

#[test]
fn header_with_unknown_command_reads_as_invalid() {
    let mut bytes: Vec<u8> = vec![0; 32];
    bytes[16] = 200;
    bytes[18] = 1;
    let header = decode_header(&bytes).unwrap();
    assert_eq!(header.command_id, CommandID::Invalid);
    assert_eq!(decode_response(&header), None);
}

#[test]
fn header_shorter_than_announced_is_rejected() {
    let mut bytes: Vec<u8> = vec![0; 40];
    bytes[20] = 9;
    assert_eq!(decode_header(&bytes), None);
    assert_eq!(decode_header(&bytes[..31]), None);
    bytes[20] = 8;
    assert_eq!(decode_header(&bytes).unwrap().data.len(), 8);
}

#[test]
fn header_ignores_bytes_behind_the_data_section() {
    let mut bytes: Vec<u8> = vec![0; 40];
    bytes[20] = 2;
    bytes[32] = 7;
    bytes[33] = 8;
    bytes[34] = 9;
    assert_eq!(decode_header(&bytes).unwrap().data, vec![7, 8]);
}

#[test]
fn read_response_is_decoded() {
    let bytes = wf_response_bytes(
        5,
        wire_response::Response::Read(
            wire_response::ReadResponse::new(AdsError::ErrNoError, vec![1, 2, 3]),
        ),
    );
    let header = decode_header(&bytes).unwrap();
    assert_eq!(header.invoke_id, 5);
    match decode_response(&header) {
        Some(Response::Read(r)) => {
            assert_eq!(r.result, 0);
            assert_eq!(r.length, 3);
            assert_eq!(r.data, vec![1, 2, 3]);
        },
        other => panic!("{:?}", other),
    }
}

#[test]
fn read_write_response_is_decoded() {
    let bytes = wf_response_bytes(
        5,
        wire_response::Response::ReadWrite(
            wire_response::ReadWriteResponse::new(
                AdsError::AdsErrDeviceSymbolNotFound,
                vec![9, 8],
            ),
        ),
    );
    match decode_response(&decode_header(&bytes).unwrap()) {
        Some(Response::ReadWrite(r)) => {
            assert_eq!(r.result, 1808);
            assert_eq!(r.length, 2);
            assert_eq!(r.data, vec![9, 8]);
        },
        other => panic!("{:?}", other),
    }
}

#[test]
fn write_responses_are_decoded() {
    let write = wf_response_bytes(
        1,
        wire_response::Response::Write(wire_response::WriteResponse::new(AdsError::ErrNoError)),
    );
    let control = wf_response_bytes(
        1,
        wire_response::Response::WriteControl(
            wire_response::WriteControlResponse::new(AdsError::ErrInternal),
        ),
    );
    let delete = wf_response_bytes(
        1,
        wire_response::Response::DeleteDeviceNotification(
            wire_response::DeleteDeviceNotificationResponse::new(
                AdsError::ErrUnknowAdsError { error_code: 0x01020304 },
            ),
        ),
    );
    match decode_response(&decode_header(&write).unwrap()) {
        Some(Response::Write(r)) => assert_eq!(r.result, 0),
        other => panic!("{:?}", other),
    }
    match decode_response(&decode_header(&control).unwrap()) {
        Some(Response::WriteControl(r)) => assert_eq!(r.result, 1),
        other => panic!("{:?}", other),
    }
    match decode_response(&decode_header(&delete).unwrap()) {
        Some(Response::DeleteDeviceNotification(r)) => assert_eq!(r.result, 0x01020304),
        other => panic!("{:?}", other),
    }
}

#[test]
fn read_state_response_is_decoded() {
    let bytes = wf_response_bytes(
        1,
        wire_response::Response::ReadState(
            wire_response::ReadStateResponse::new(
                AdsError::ErrNoError,
                ads_proto::proto::ads_state::AdsState::AdsStateRun,
                0x0304,
            ),
        ),
    );
    match decode_response(&decode_header(&bytes).unwrap()) {
        Some(Response::ReadState(r)) => {
            assert_eq!(r.result, 0);
            assert_eq!(r.ads_state, AdsState::AdsStateRun);
            assert_eq!(r.device_state, 0x0304);
        },
        other => panic!("{:?}", other),
    }
}

#[test]
fn read_state_response_with_unknown_state_reads_as_invalid() {
    let mut bytes: Vec<u8> = vec![0; 40];
    bytes[16] = 4;
    bytes[18] = 5;
    bytes[20] = 8;
    bytes[36] = 99;
    bytes[38] = 1;
    match decode_response(&decode_header(&bytes).unwrap()) {
        Some(Response::ReadState(r)) => {
            assert_eq!(r.ads_state, AdsState::AdsStateInvalid);
            assert_eq!(r.device_state, 1);
        },
        other => panic!("{:?}", other),
    }
}

#[test]
fn read_device_info_response_is_decoded() {
    let name = wire_response::ReadDeviceInfoResponse::create_device_name_buf("Plc30 App");
    let bytes = wf_response_bytes(
        1,
        wire_response::Response::ReadDeviceInfo(
            wire_response::ReadDeviceInfoResponse::new(AdsError::ErrNoError, 3, 1, 4024, name),
        ),
    );
    match decode_response(&decode_header(&bytes).unwrap()) {
        Some(Response::ReadDeviceInfo(r)) => {
            assert_eq!(r.result, 0);
            assert_eq!(r.major_version, 3);
            assert_eq!(r.minor_version, 1);
            assert_eq!(r.version_build, 4024);
            assert_eq!(r.device_name, name);
        },
        other => panic!("{:?}", other),
    }
}

#[test]
fn add_device_notification_response_is_decoded() {
    let bytes = wf_response_bytes(
        1,
        wire_response::Response::AddDeviceNotification(
            wire_response::AddDeviceNotificationResponse::new(AdsError::ErrNoError, 0x0A0B0C0D),
        ),
    );
    match decode_response(&decode_header(&bytes).unwrap()) {
        Some(Response::AddDeviceNotification(r)) => {
            assert_eq!(r.result, 0);
            assert_eq!(r.notification_handle, 0x0A0B0C0D);
        },
        other => panic!("{:?}", other),
    }
}

#[test]
fn notification_stream_is_decoded() {
    let samples = vec![
        wire_response::AdsNotificationSample::new(7, vec![1, 2]),
        wire_response::AdsNotificationSample::new(9, vec![3]),
    ];
    let stamp = wire_response::AdsStampHeader::new(1234567890, 2, samples);
    let length = stamp.stamp_len() as u32 + 4;
    let stream = wire_response::AdsNotificationStream::new(length, 1, vec![stamp]);
    let bytes = wf_response_bytes(0, wire_response::Response::DeviceNotification(stream));
    match decode_response(&decode_header(&bytes).unwrap()) {
        Some(Response::DeviceNotification(s)) => {
            assert_eq!(s.length, length);
            assert_eq!(s.stamps, 1);
            assert_eq!(s.ads_stamp_headers.len(), 1);
            assert_eq!(s.ads_stamp_headers[0].time_stamp, 1234567890);
            assert_eq!(s.ads_stamp_headers[0].samples, 2);
            let samples = &s.ads_stamp_headers[0].notification_samples;
            assert_eq!(samples.len(), 2);
            assert_eq!(samples[0].notification_handle, 7);
            assert_eq!(samples[0].sample_size, 2);
            assert_eq!(samples[0].data, vec![1, 2]);
            assert_eq!(samples[1].notification_handle, 9);
            assert_eq!(samples[1].data, vec![3]);
        },
        other => panic!("{:?}", other),
    }
}

#[test]
fn notification_stream_without_stamps_is_not_decoded() {
    let mut bytes: Vec<u8> = vec![0; 40];
    bytes[16] = 8;
    bytes[20] = 8;
    bytes[32] = 4;
    let header = decode_header(&bytes).unwrap();
    assert_eq!(header.command_id, CommandID::DeviceNotification);
    assert_eq!(decode_response(&header), None);
}

#[test]
fn notification_stream_with_short_length_is_not_decoded() {
    let mut bytes: Vec<u8> = vec![0; 40];
    bytes[16] = 8;
    bytes[20] = 8;
    bytes[32] = 3;
    bytes[36] = 1;
    assert_eq!(decode_response(&decode_header(&bytes).unwrap()), None);
}

#[test]
fn request_frames_are_no_responses() {
    let request = Request::Read(ReadRequest { index_group: 1, index_offset: 2, length: 3 });
    let frame = encode_request(&wf_target(), &wf_source(), 1, &request);
    let header = decode_header(&frame[6..]).unwrap();
    assert_eq!(decode_response(&header), None);
}

#[test]
fn truncated_response_is_not_decoded() {
    let mut bytes: Vec<u8> = vec![0; 39];
    bytes[16] = 2;
    bytes[18] = 5;
    bytes[20] = 7;
    assert_eq!(decode_response(&decode_header(&bytes).unwrap()), None);
}

#[test]
fn read_takes_prefix_then_payload() {
    let request = Request::ReadState;
    let frame = encode_request(&wf_target(), &wf_source(), 21, &request);
    let at = Cell::new(0usize);
    let transport = |n: usize| -> Result<Vec<u8>, ReadError> {
        let start = at.get();
        if start + n > frame.len() {
            return Err(ReadError::UnexpectedEof);
        }
        at.set(start + n);
        Ok(frame[start..start + n].to_vec())
    };
    let header = read(&transport).unwrap();
    assert_eq!(at.get(), frame.len());
    assert_eq!(header.invoke_id, 21);
    assert_eq!(header.command_id, CommandID::ReadState);
    assert_eq!(read(&transport), Err(ReadError::UnexpectedEof));
}

#[test]
fn read_passes_transport_errors_on() {
    let failing = |_n: usize| -> Result<Vec<u8>, ReadError> { Err(ReadError::Transport) };
    assert_eq!(read(&failing), Err(ReadError::Transport));
    let calls = Cell::new(0u32);
    let second_fails = |n: usize| -> Result<Vec<u8>, ReadError> {
        calls.set(calls.get() + 1);
        if calls.get() == 1 {
            assert_eq!(n, 6);
            Ok(vec![0, 0, 40, 0, 0, 0])
        } else {
            assert_eq!(n, 40);
            Err(ReadError::UnexpectedEof)
        }
    };
    assert_eq!(read(&second_fails), Err(ReadError::UnexpectedEof));
    assert_eq!(calls.get(), 2);
}

#[test]
fn read_of_a_malformed_header_is_malformed() {
    let calls = Cell::new(0u32);
    let transport = |n: usize| -> Result<Vec<u8>, ReadError> {
        calls.set(calls.get() + 1);
        if calls.get() == 1 {
            Ok(vec![0, 0, 10, 0, 0, 0])
        } else {
            Ok(vec![0; n])
        }
    };
    assert_eq!(read(&transport), Err(ReadError::Malformed));
}

#[test]
fn read_of_a_short_answer_is_an_unexpected_end() {
    let short_prefix = |_n: usize| -> Result<Vec<u8>, ReadError> { Ok(vec![0, 0, 1]) };
    assert_eq!(read(&short_prefix), Err(ReadError::UnexpectedEof));
    let calls = Cell::new(0u32);
    let short_payload = |_n: usize| -> Result<Vec<u8>, ReadError> {
        calls.set(calls.get() + 1);
        if calls.get() == 1 {
            Ok(vec![0, 0, 32, 0, 0, 0])
        } else {
            Ok(vec![0; 31])
        }
    };
    assert_eq!(read(&short_payload), Err(ReadError::UnexpectedEof));
}

#[test]
fn request_fits_up_to_the_limit() {
    assert!(request_fits(&Request::ReadState));
    assert!(request_fits(&Request::Write(
        WriteRequest { index_group: 0, index_offset: 0, data: vec![0; 1000] },
    )));
    assert_eq!(ads_client::codec::MAX_REQUEST_BODY, 0xFFFF_FF00);
}

#[test]
fn sumup_read_layout_accepts_exact_layouts_only() {
    let good: Vec<u8> = vec![0, 0, 0, 0, 2, 0, 0, 0, 0, 0, 0, 0, 1, 0, 0, 0, 7, 8, 9];
    assert!(sumup_read_layout_ok(&good, 2));
    assert!(!sumup_read_layout_ok(&good, 1));
    assert!(!sumup_read_layout_ok(&good, 3));
    assert!(!sumup_read_layout_ok(&good[..18], 2));
    assert!(sumup_read_layout_ok(&[], 0));
    assert!(!sumup_read_layout_ok(&[], 1));
    assert!(!sumup_read_layout_ok(&[0, 0, 0, 0, 0xFF, 0xFF, 0xFF, 0xFF], 1));
}

#[test]
fn service_constants_agree_with_the_codec() {
    assert_eq!(request_factory::GET_SYMHANDLE_BY_NAME, services::GET_SYMHANDLE_BY_NAME.index_group);
    assert_eq!(
        request_factory::READ_WRITE_SYMVAL_BY_HANDLE,
        services::READ_WRITE_SYMVAL_BY_HANDLE.index_group
    );
    assert_eq!(request_factory::RELEASE_SYMHANDLE, services::RELEASE_SYMHANDLE.index_group);
    assert_eq!(request_factory::ADSIGRP_SUMUP_WRITE, services::ADSIGRP_SUMUP_WRITE.index_group);
    assert_eq!(request_factory::ADSIGRP_SUMUP_READEX, services::ADSIGRP_SUMUP_READEX.index_group);
}

#[test]
fn error_codes_agree_with_the_codec() {
    assert_eq!(ads_client::error::ERR_NO_ERROR, AdsError::ErrNoError.as_u32());
    assert_eq!(ads_client::error::ERR_PORT_NOT_CONNECTED, AdsError::ErrPortNotConnected.as_u32());
    assert_eq!(
        ads_client::error::ADS_ERR_DEVICE_SYMBOL_NOT_FOUND,
        AdsError::AdsErrDeviceSymbolNotFound.as_u32()
    );
    assert_eq!(ads_client::error::ADS_ERR_CLIENT_ERROR, AdsError::AdsErrClientError.as_u32());
    assert_eq!(
        ads_client::error::ADS_ERR_CLIENT_PORT_NOT_OPEN,
        AdsError::AdsErrClientPortNotOpen.as_u32()
    );
}

#[test]
fn enum_numbers_agree_with_the_codec() {
    for n in 0..20u16 {
        assert_eq!(
            CommandID::from_u16(n).as_u16(),
            ads_proto::proto::command_id::CommandID::from(n).as_u16()
        );
        assert_eq!(
            AdsState::from_u16(n).as_u16(),
            ads_proto::proto::ads_state::AdsState::from(n).as_u16()
        );
    }
    assert_eq!(AdsTransMode::NoTransmission.as_u32(), 0);
    assert_eq!(AdsTransMode::ClientCylcle.as_u32(), 1);
    assert_eq!(AdsTransMode::ClientOnChange.as_u32(), 2);
    assert_eq!(AdsTransMode::Cyclic.as_u32(), 3);
    assert_eq!(
        AdsTransMode::OnChange.as_u32(),
        ads_proto::proto::ads_transition_mode::AdsTransMode::OnChange.as_u32()
    );
    assert_eq!(AdsTransMode::CyclicInContext.as_u32(), 5);
    assert_eq!(AdsTransMode::OnChangeInContext.as_u32(), 6);
}

#[test]
fn notification_layout_accepts_streams_that_hold_what_they_announce() {
    let stream: Vec<u8> = vec![
        26, 0, 0, 0, 1, 0, 0, 0, 1, 2, 3, 4, 5, 6, 7, 8, 1, 0, 0, 0, 9, 0, 0, 0, 2, 0, 0, 0, 0xAA,
        0xBB,
    ];
    assert!(ads_client::codec::notification_layout_ok(&stream));
    let mut header: Vec<u8> = vec![0; 32];
    header[16] = 8;
    header[20] = stream.len() as u8;
    header.extend_from_slice(&stream);
    match decode_response(&decode_header(&header).unwrap()) {
        Some(Response::DeviceNotification(s)) => {
            assert_eq!(s.length, 26);
            assert_eq!(s.stamps, 1);
            assert_eq!(s.ads_stamp_headers[0].time_stamp, 0x0807060504030201);
            assert_eq!(s.ads_stamp_headers[0].notification_samples[0].notification_handle, 9);
            assert_eq!(s.ads_stamp_headers[0].notification_samples[0].data, vec![0xAA, 0xBB]);
        },
        other => panic!("{:?}", other),
    }
    let mut no_samples = stream.clone();
    no_samples[16] = 0;
    assert!(ads_client::codec::notification_layout_ok(&no_samples));
}

#[test]
fn notification_layout_rejects_streams_that_announce_too_much() {
    let stream: Vec<u8> = vec![
        26, 0, 0, 0, 1, 0, 0, 0, 1, 2, 3, 4, 5, 6, 7, 8, 1, 0, 0, 0, 9, 0, 0, 0, 2, 0, 0, 0, 0xAA,
        0xBB,
    ];
    let change = |at: usize, value: u8| -> Vec<u8> {
        let mut changed = stream.clone();
        changed[at] = value;
        changed
    };
    assert!(!ads_client::codec::notification_layout_ok(&[]));
    assert!(!ads_client::codec::notification_layout_ok(&stream[..7]));
    assert!(!ads_client::codec::notification_layout_ok(&stream[..29]));
    assert!(!ads_client::codec::notification_layout_ok(&change(0, 3)));
    assert!(!ads_client::codec::notification_layout_ok(&change(0, 15)));
    assert!(!ads_client::codec::notification_layout_ok(&change(4, 0)));
    assert!(!ads_client::codec::notification_layout_ok(&change(4, 2)));
    assert!(!ads_client::codec::notification_layout_ok(&change(7, 0xFF)));
    assert!(!ads_client::codec::notification_layout_ok(&change(16, 2)));
    assert!(!ads_client::codec::notification_layout_ok(&change(19, 0xFF)));
    assert!(!ads_client::codec::notification_layout_ok(&change(24, 3)));
    assert!(!ads_client::codec::notification_layout_ok(&change(27, 0xFF)));
    let mut header: Vec<u8> = vec![0; 32];
    header[16] = 8;
    header[20] = stream.len() as u8;
    header.extend_from_slice(&change(27, 0xFF));
    assert_eq!(decode_response(&decode_header(&header).unwrap()), None);
}

#[test]
fn response_that_announces_more_data_than_it_holds_is_not_decoded() {
    let mut bytes: Vec<u8> = vec![0; 42];
    bytes[16] = 2;
    bytes[18] = 5;
    bytes[20] = 10;
    bytes[36] = 3;
    assert_eq!(decode_response(&decode_header(&bytes).unwrap()), None);
    bytes[36] = 2;
    match decode_response(&decode_header(&bytes).unwrap()) {
        Some(Response::Read(r)) => assert_eq!((r.length, r.data.len()), (2, 2)),
        other => panic!("{:?}", other),
    }
    bytes[36] = 1;
    match decode_response(&decode_header(&bytes).unwrap()) {
        Some(Response::Read(r)) => assert_eq!((r.length, r.data.len()), (1, 2)),
        other => panic!("{:?}", other),
    }
    bytes[16] = 9;
    bytes[36] = 0xFF;
    bytes[39] = 0xFF;
    assert_eq!(decode_response(&decode_header(&bytes).unwrap()), None);
}

#[test]
fn header_that_announces_more_data_than_it_holds_is_rejected() {
    let mut bytes: Vec<u8> = vec![0; 32];
    bytes[23] = 0xFF;
    assert_eq!(decode_header(&bytes), None);
    bytes[23] = 0;
    assert!(decode_header(&bytes).is_some());
}

#[test]
fn every_error_code_is_read_as_it_is_written() {
    let mut header: Vec<u8> = vec![0; 36];
    header[16] = 3;
    header[18] = 5;
    header[20] = 4;
    let mut codes: Vec<u32> = (0..6000).collect();
    codes.extend_from_slice(&[0xFFFF, 0x10000, 0x274C, 0x274D, 0x2751, 0x7FFF_FFFF, u32::MAX]);
    for code in codes {
        header[24..28].copy_from_slice(&code.to_le_bytes());
        header[32..36].copy_from_slice(&code.to_le_bytes());
        let decoded = decode_header(&header).unwrap();
        assert_eq!(decoded.ads_error, code);
        match decode_response(&decoded) {
            Some(Response::Write(r)) => assert_eq!(r.result, code),
            other => panic!("{:?}", other),
        }
    }
}

#[test]
fn notification_stream_is_read_stamp_by_stamp() {
    let stream: Vec<u8> = vec![
        // length: the stamp counter and two stamp headers of 30 bytes
        64, 0, 0, 0,
        // stamps
        2, 0, 0, 0,
        // first stamp header: time stamp, two samples
        1, 0, 0, 0, 0, 0, 0, 0, 2, 0, 0, 0,
        7, 0, 0, 0, 1, 0, 0, 0, 0xA1,
        8, 0, 0, 0, 1, 0, 0, 0, 0xB1,
        // second stamp header: time stamp, one sample, and ten bytes to spare
        2, 1, 0, 0, 0, 0, 0, 0, 1, 0, 0, 0,
        9, 1, 0, 0, 0, 0, 0, 0,
        0xEE, 0xEE, 0xEE, 0xEE, 0xEE, 0xEE, 0xEE, 0xEE, 0xEE, 0xEE,
    ];
    assert_eq!(stream.len(), 68);
    assert!(ads_client::codec::notification_layout_ok(&stream));
    let mut header: Vec<u8> = vec![0; 32];
    header[16] = 8;
    header[20] = stream.len() as u8;
    header.extend_from_slice(&stream);
    match decode_response(&decode_header(&header).unwrap()) {
        Some(Response::DeviceNotification(s)) => {
            assert_eq!(s.length, 64);
            assert_eq!(s.stamps, 2);
            assert_eq!(s.ads_stamp_headers.len(), 2);
            let first = &s.ads_stamp_headers[0];
            assert_eq!((first.time_stamp, first.samples), (1, 2));
            assert_eq!(first.notification_samples.len(), 2);
            assert_eq!(first.notification_samples[0].notification_handle, 7);
            assert_eq!(first.notification_samples[0].sample_size, 1);
            assert_eq!(first.notification_samples[0].data, vec![0xA1]);
            assert_eq!(first.notification_samples[1].notification_handle, 8);
            assert_eq!(first.notification_samples[1].data, vec![0xB1]);
            let second = &s.ads_stamp_headers[1];
            assert_eq!((second.time_stamp, second.samples), (258, 1));
            assert_eq!(second.notification_samples.len(), 1);
            assert_eq!(second.notification_samples[0].notification_handle, 265);
            assert_eq!(second.notification_samples[0].sample_size, 0);
            assert_eq!(second.notification_samples[0].data, Vec::<u8>::new());
        },
        other => panic!("{:?}", other),
    }
}
