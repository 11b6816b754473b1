//! Connecting, step by step.
use ads_client::client::Client;
use ads_client::connect::ConnectPlan;
use ads_client::connect::PORT_OPEN_ADDRESS_OFFSET;
use ads_client::connect::PORT_OPEN_REPLY_SIZE;
use ads_client::connect::PORT_OPEN_REQUEST;
use ads_client::connect::TransportReply;
use ads_client::connect::TransportStep;
use ads_client::error::ClientError;
use ads_client::error::ClientResult;
use ads_client::proto::AdsState;
use ads_client::proto::AmsAddress;
use ads_client::proto::CommandID;
use ads_client::proto::ReadStateResponse;
use ads_client::proto::Response;
use ads_client::reader::decode_header;
use std::cell::RefCell;

fn cn_target() -> AmsAddress {
    AmsAddress::new([192, 168, 0, 150, 1, 1], 851)
}

fn cn_running(_id: u32, _frame: Vec<u8>) -> ClientResult<Response> {
    Ok(
        Response::ReadState(
            ReadStateResponse { result: 0, ads_state: AdsState::AdsStateRun, device_state: 0 },
        ),
    )
}

fn cn_port_reply() -> Vec<u8> {
    vec![0, 16, 8, 0, 0, 0, 10, 0, 0, 7, 1, 1, 0x39, 0x80]
}

#[test]
fn port_open_request_is_the_literal() {
    assert_eq!(PORT_OPEN_REQUEST, [0x00, 0x10, 0x02, 0x00, 0x00, 0x00, 0x00, 0x00]);
    assert_eq!(PORT_OPEN_REPLY_SIZE, 14);
    assert_eq!(PORT_OPEN_ADDRESS_OFFSET, 6);
}

#[test]
fn plan_follows_the_state() {
    let mut client = Client::new(cn_target(), None);
    assert_eq!(
        client.connect_plan(),
        ConnectPlan { open: true, handshake: true, local_address: false, start_reader: true }
    );
    client.route = Some([10, 0, 0, 1]);
    assert_eq!(
        client.connect_plan(),
        ConnectPlan { open: true, handshake: false, local_address: true, start_reader: true }
    );
    client.connected = true;
    client.thread_started = true;
    assert_eq!(
        client.connect_plan(),
        ConnectPlan { open: false, handshake: false, local_address: true, start_reader: false }
    );
    client.route = None;
    assert_eq!(
        client.connect_plan(),
        ConnectPlan { open: false, handshake: false, local_address: false, start_reader: false }
    );
}

#[test]
fn connect_with_route_takes_the_address_of_the_socket() {
    let steps = RefCell::new(Vec::new());
    let transport = |step: TransportStep| {
        steps.borrow_mut().push(step);
        match step {
            TransportStep::LocalAddress => {
                Ok(TransportReply::Address { ip: [192, 168, 0, 2], port: 50123 })
            },
            _ => Ok(TransportReply::Done),
        }
    };
    let frames = RefCell::new(Vec::new());
    let link = |id: u32, frame: Vec<u8>| {
        frames.borrow_mut().push(frame);
        cn_running(id, Vec::new())
    };
    let mut client = Client::new(cn_target(), Some([192, 168, 0, 150]));
    let state = client.connect(&transport, &link).unwrap();
    assert_eq!(state.ads_state, AdsState::AdsStateRun);
    assert_eq!(
        *steps.borrow(),
        vec![
            TransportStep::Open { route: Some([192, 168, 0, 150]) },
            TransportStep::LocalAddress,
            TransportStep::StartReader,
        ]
    );
    assert!(client.connected);
    assert!(client.thread_started);
    assert_eq!(client.ams_source_address, AmsAddress::new([192, 168, 0, 2, 1, 1], 50123));
    assert_eq!(client.invoke_id, 1);
    assert_eq!(frames.borrow().len(), 1);
    let header = decode_header(&frames.borrow()[0][6..]).unwrap();
    assert_eq!(header.command_id, CommandID::ReadState);
    assert_eq!(header.invoke_id, 1);
    assert_eq!(&frames.borrow()[0][14..22], &[192, 168, 0, 2, 1, 1, 0xCB, 0xC3]);
}

#[test]
fn connect_without_route_asks_the_router_for_a_port() {
    let steps = RefCell::new(Vec::new());
    let transport = |step: TransportStep| {
        steps.borrow_mut().push(step);
        match step {
            TransportStep::Handshake { .. } => Ok(TransportReply::Bytes(cn_port_reply())),
            _ => Ok(TransportReply::Done),
        }
    };
    let mut client = Client::new(cn_target(), None);
    assert!(client.connect(&transport, &cn_running).is_ok());
    assert_eq!(
        *steps.borrow(),
        vec![
            TransportStep::Open { route: None },
            TransportStep::Handshake { request: [0, 16, 2, 0, 0, 0, 0, 0], reply_size: 14 },
            TransportStep::StartReader,
        ]
    );
    assert_eq!(client.ams_source_address, AmsAddress::new([10, 0, 0, 7, 1, 1], 0x8039));
}

#[test]
fn second_connect_opens_nothing_and_starts_nothing() {
    let steps = RefCell::new(Vec::new());
    let transport = |step: TransportStep| {
        steps.borrow_mut().push(step);
        match step {
            TransportStep::Handshake { .. } => Ok(TransportReply::Bytes(cn_port_reply())),
            _ => Ok(TransportReply::Done),
        }
    };
    let mut client = Client::new(cn_target(), None);
    assert!(client.connect(&transport, &cn_running).is_ok());
    let taken = steps.borrow().len();
    assert!(client.connect(&transport, &cn_running).is_ok());
    assert_eq!(steps.borrow()[taken..].to_vec(), vec![TransportStep::UpdateReader]);
    assert!(client.connected);
    assert!(client.thread_started);
    assert_eq!(client.invoke_id, 2);
    let opened = steps.borrow().iter().filter(|s| matches!(s, TransportStep::Open { .. })).count();
    let started = steps.borrow().iter().filter(|s| matches!(s, TransportStep::StartReader)).count();
    assert_eq!(opened, 1);
    assert_eq!(started, 1);
}

#[test]
fn failed_open_leaves_the_client_unconnected() {
    let transport = |_step: TransportStep| -> ClientResult<TransportReply> {
        Err(ClientError::Transport)
    };
    let mut client = Client::new(cn_target(), Some([10, 0, 0, 1]));
    assert_eq!(client.connect(&transport, &cn_running), Err(ClientError::Transport));
    assert!(!client.connected);
    assert!(!client.thread_started);
    assert_eq!(client.invoke_id, 0);
}

#[test]
fn failed_reader_start_is_a_failed_connect() {
    let transport = |step: TransportStep| match step {
        TransportStep::StartReader => Err(ClientError::Transport),
        TransportStep::LocalAddress => Ok(TransportReply::Address { ip: [1, 2, 3, 4], port: 5 }),
        _ => Ok(TransportReply::Done),
    };
    let mut client = Client::new(cn_target(), Some([10, 0, 0, 1]));
    assert_eq!(client.connect(&transport, &cn_running), Err(ClientError::Transport));
    assert!(client.connected);
    assert!(!client.thread_started);
    assert_eq!(client.ams_source_address, AmsAddress::new([1, 2, 3, 4, 1, 1], 5));
}

#[test]
fn silent_controller_is_a_failed_connect() {
    let transport = |step: TransportStep| match step {
        TransportStep::LocalAddress => Ok(TransportReply::Address { ip: [1, 2, 3, 4], port: 5 }),
        _ => Ok(TransportReply::Done),
    };
    let lost = |_id: u32, _frame: Vec<u8>| -> ClientResult<Response> { Err(ClientError::Ads(13)) };
    let mut client = Client::new(cn_target(), Some([10, 0, 0, 1]));
    assert_eq!(client.connect(&transport, &lost), Err(ClientError::Ads(13)));
    assert!(!client.connected);
    assert!(client.thread_started);
    let wrong = |_id: u32, _frame: Vec<u8>| -> ClientResult<Response> {
        Ok(Response::Write(ads_client::proto::WriteResponse { result: 0 }))
    };
    assert_eq!(client.connect(&transport, &wrong), Err(ClientError::UnexpectedResponse));
    assert!(client.connected);
}

#[test]
fn unexpected_transport_answers_are_malformed() {
    let transport = |_step: TransportStep| -> ClientResult<TransportReply> {
        Ok(TransportReply::Done)
    };
    let mut with_route = Client::new(cn_target(), Some([10, 0, 0, 1]));
    assert_eq!(with_route.connect(&transport, &cn_running), Err(ClientError::Malformed));
    let mut without_route = Client::new(cn_target(), None);
    assert_eq!(without_route.connect(&transport, &cn_running), Err(ClientError::Malformed));
    assert!(without_route.connected);
    assert!(!without_route.thread_started);
}

#[test]
fn learn_source_reads_the_address_behind_six_bytes() {
    let mut client = Client::new(cn_target(), None);
    assert_eq!(client.learn_source(Ok(TransportReply::Bytes(cn_port_reply()))), Ok(()));
    assert_eq!(client.ams_source_address, AmsAddress::new([10, 0, 0, 7, 1, 1], 0x8039));
    let before = client.ams_source_address;
    assert_eq!(
        client.learn_source(Ok(TransportReply::Bytes(vec![0; 13]))),
        Err(ClientError::Malformed)
    );
    assert_eq!(
        client.learn_source(Ok(TransportReply::Bytes(vec![0; 15]))),
        Err(ClientError::Malformed)
    );
    assert_eq!(client.learn_source(Ok(TransportReply::Done)), Err(ClientError::Malformed));
    assert_eq!(client.learn_source(Err(ClientError::Transport)), Err(ClientError::Transport));
    assert_eq!(client.ams_source_address, before);
}

#[test]
fn locate_source_appends_one_one_to_the_address() {
    let mut client = Client::new(cn_target(), Some([10, 0, 0, 1]));
    assert_eq!(
        client.locate_source(Ok(TransportReply::Address { ip: [172, 16, 5, 9], port: 65535 })),
        Ok(())
    );
    assert_eq!(client.ams_source_address, AmsAddress::new([172, 16, 5, 9, 1, 1], 65535));
    assert_eq!(AmsAddress::from_socket([1, 2, 3, 4], 5), AmsAddress::new([1, 2, 3, 4, 1, 1], 5));
    assert_eq!(client.locate_source(Ok(TransportReply::Done)), Err(ClientError::Malformed));
    assert_eq!(client.locate_source(Err(ClientError::Transport)), Err(ClientError::Transport));
}

#[test]
fn create_stream_and_open_local_port_take_one_step_each() {
    let steps = RefCell::new(Vec::new());
    let transport = |step: TransportStep| {
        steps.borrow_mut().push(step);
        match step {
            TransportStep::Handshake { .. } => Ok(TransportReply::Bytes(cn_port_reply())),
            _ => Ok(TransportReply::Done),
        }
    };
    let mut client = Client::new(cn_target(), Some([10, 0, 0, 1]));
    assert_eq!(client.create_stream(&transport), Ok(()));
    assert!(client.connected);
    assert_eq!(client.open_local_port(&transport), Ok(()));
    assert_eq!(steps.borrow().len(), 2);
    assert_eq!(steps.borrow()[0], TransportStep::Open { route: Some([10, 0, 0, 1]) });
}

#[test]
fn failed_handshake_drops_the_transport() {
    let steps = RefCell::new(Vec::new());
    let transport = |step: TransportStep| {
        steps.borrow_mut().push(step);
        match step {
            TransportStep::Handshake { .. } => Err(ClientError::Transport),
            _ => Ok(TransportReply::Done),
        }
    };
    let mut client = Client::new(cn_target(), None);
    assert_eq!(client.connect(&transport, &cn_running), Err(ClientError::Transport));
    assert!(!client.connected);
    assert!(!client.thread_started);
    assert_eq!(client.connect(&transport, &cn_running), Err(ClientError::Transport));
    assert_eq!(steps.borrow().len(), 4);
    assert_eq!(steps.borrow()[2], TransportStep::Open { route: None });
}

#[test]
fn failed_local_address_drops_the_transport() {
    let transport = |step: TransportStep| match step {
        TransportStep::LocalAddress => Err(ClientError::Transport),
        _ => Ok(TransportReply::Done),
    };
    let mut client = Client::new(cn_target(), Some([10, 0, 0, 1]));
    assert_eq!(client.connect(&transport, &cn_running), Err(ClientError::Transport));
    assert!(!client.connected);
    assert!(client.connect_plan().open);
}
