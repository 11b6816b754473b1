//! The wire format, and the calls into the codec crates.
//!
//! The spec functions of this module state the byte layout of AMS/TCP frames.
//! The executable functions marked `external_body` call `ads_proto` and
//! `byteorder`; their contracts are believed, not proved.
use ads_proto::ads_services::system_services as services;
use ads_proto::proto::ads_state::AdsState as WireAdsState;
use ads_proto::proto::ads_transition_mode::AdsTransMode as WireTransMode;
use ads_proto::proto::ams_address::AmsAddress as WireAddress;
use ads_proto::proto::ams_address::AmsNetId;
use ads_proto::proto::ams_header::AmsHeader as WireHeader;
use ads_proto::proto::ams_header::AmsTcpHeader;
use ads_proto::proto::proto_traits::ReadFrom;
use ads_proto::proto::proto_traits::WriteTo;
use ads_proto::proto::request as wire;
use ads_proto::proto::state_flags::StateFlags;
use ads_proto::proto::sumup::sumup_request::SumupReadRequest;
use ads_proto::proto::sumup::sumup_request::SumupWriteRequest;
use ads_proto::proto::sumup::sumup_response::SumupReadResponse;
use ads_proto::proto::sumup::sumup_response::SumupWriteResponse;
use byteorder::LittleEndian;
use byteorder::ReadBytesExt;
use crate::proto::AddDeviceNotificationRequest;
use crate::proto::AddDeviceNotificationResponse;
use crate::proto::AdsNotificationSample;
use crate::proto::AdsNotificationStream;
use crate::proto::AdsStampHeader;
use crate::proto::AdsState;
use crate::proto::AmsAddress;
use crate::proto::CommandID;
use crate::proto::DeleteDeviceNotificationRequest;
use crate::proto::DeleteDeviceNotificationResponse;
use crate::proto::ReadDeviceInfoResponse;
use crate::proto::ReadRequest;
use crate::proto::ReadResponse;
use crate::proto::ReadWriteRequest;
use crate::proto::ReadWriteResponse;
use crate::proto::Request;
use crate::proto::StreamView;
use crate::proto::WriteControlRequest;
use crate::proto::WriteControlResponse;
use crate::proto::WriteRequest;
use crate::proto::WriteResponse;
use vstd::bytes::spec_u16_from_le_bytes;
use vstd::bytes::spec_u16_to_le_bytes;
use vstd::bytes::spec_u32_from_le_bytes;
use vstd::bytes::spec_u32_to_le_bytes;
use vstd::bytes::spec_u64_from_le_bytes;
use vstd::prelude::*;
use vstd::slice::slice_subrange;

verus! {

/// Length of the fixed part of an AMS header.
pub const AMS_HEADER_SIZE: usize = 32;

/// State flags of a request: an ADS command over TCP.
pub const REQUEST_STATE_FLAGS: u16 = 4;

/// The little-endian 16-bit number at `bytes[at..at + 2]`.
pub open spec fn le16_at(bytes: Seq<u8>, at: int) -> u16 {
    spec_u16_from_le_bytes(bytes.subrange(at, at + 2))
}

/// The little-endian 32-bit number at `bytes[at..at + 4]`.
pub open spec fn le32_at(bytes: Seq<u8>, at: int) -> u32 {
    spec_u32_from_le_bytes(bytes.subrange(at, at + 4))
}

/// An address on the wire: the net id, then the port.
pub open spec fn address_bytes(address: AmsAddress) -> Seq<u8> {
    address.net_id@ + spec_u16_to_le_bytes(address.port)
}

/// An AMS header on the wire: both addresses, command, state flags, the length
/// of the data section, error code, invoke id, then the data section.
pub open spec fn ams_header_bytes(
    target: AmsAddress,
    source: AmsAddress,
    command: u16,
    state_flags: u16,
    ads_error: u32,
    invoke_id: u32,
    data: Seq<u8>,
) -> Seq<u8> {
    address_bytes(target) + address_bytes(source) + spec_u16_to_le_bytes(command)
        + spec_u16_to_le_bytes(state_flags) + spec_u32_to_le_bytes(data.len() as u32)
        + spec_u32_to_le_bytes(ads_error) + spec_u32_to_le_bytes(invoke_id) + data
}

/// An AMS/TCP frame: two reserved zero bytes, the length of the AMS header,
/// then the AMS header.
pub open spec fn ams_tcp_frame(header: Seq<u8>) -> Seq<u8> {
    seq![0u8, 0u8] + spec_u32_to_le_bytes(header.len() as u32) + header
}

/// The frame of a request with the given command and data section.
pub open spec fn request_frame(
    target: AmsAddress,
    source: AmsAddress,
    invoke_id: u32,
    command: CommandID,
    data: Seq<u8>,
) -> Seq<u8> {
    ams_tcp_frame(
        ams_header_bytes(
            target,
            source,
            command.as_u16(),
            REQUEST_STATE_FLAGS,
            0,
            invoke_id,
            data,
        ),
    )
}

/// The data section of a request.
pub open spec fn request_data(request: Request) -> Seq<u8> {
    match request {
        Request::ReadDeviceInfo => Seq::empty(),
        Request::ReadState => Seq::empty(),
        Request::Read(r) => spec_u32_to_le_bytes(r.index_group) + spec_u32_to_le_bytes(
            r.index_offset,
        ) + spec_u32_to_le_bytes(r.length),
        Request::Write(w) => spec_u32_to_le_bytes(w.index_group) + spec_u32_to_le_bytes(
            w.index_offset,
        ) + spec_u32_to_le_bytes(w.data@.len() as u32) + w.data@,
        Request::WriteControl(c) => spec_u16_to_le_bytes(c.ads_state.as_u16())
            + spec_u16_to_le_bytes(c.device_state) + spec_u32_to_le_bytes(c.length) + c.data@,
        Request::AddDeviceNotification(a) => spec_u32_to_le_bytes(a.index_group)
            + spec_u32_to_le_bytes(a.index_offset) + spec_u32_to_le_bytes(a.length)
            + spec_u32_to_le_bytes(a.transmission_mode.as_u32()) + spec_u32_to_le_bytes(
            a.max_delay,
        ) + spec_u32_to_le_bytes(a.cycle_time) + Seq::new(16, |i: int| 0u8),
        Request::DeleteDeviceNotification(d) => spec_u32_to_le_bytes(d.handle),
        Request::ReadWrite(rw) => spec_u32_to_le_bytes(rw.index_group) + spec_u32_to_le_bytes(
            rw.index_offset,
        ) + spec_u32_to_le_bytes(rw.read_length) + spec_u32_to_le_bytes(rw.data@.len() as u32)
            + rw.data@,
    }
}

/// The number of bytes that the variable part of a request adds to its data section.
pub open spec fn request_body_len(request: Request) -> nat {
    match request {
        Request::Write(w) => w.data@.len(),
        Request::WriteControl(c) => c.data@.len(),
        Request::ReadWrite(rw) => rw.data@.len(),
        _ => 0,
    }
}

/// The largest variable part that still fits into one frame: the length field
/// of the frame counts the AMS header and the fixed fields of the request too.
pub const MAX_REQUEST_BODY: usize = 0xFFFF_FF00;

/// What the client reads from the bytes of an AMS header: command, error code,
/// invoke id and data section. `None` where the bytes are fewer than the fixed
/// part and the announced data section together.
pub open spec fn header_fields(payload: Seq<u8>) -> Option<(u16, u32, u32, Seq<u8>)> {
    if payload.len() < 32 {
        None
    } else if payload.len() < 32 + le32_at(payload, 20) {
        None
    } else {
        Some(
            (
                CommandID::from_u16(le16_at(payload, 16)).as_u16(),
                le32_at(payload, 24),
                le32_at(payload, 28),
                payload.subrange(32, 32 + le32_at(payload, 20)),
            ),
        )
    }
}

/// Reads a little-endian `u16` from the front of `bytes` with
/// `byteorder::ReadBytesExt::read_u16`: the number in the first two bytes,
/// nothing where there are fewer.
#[verifier::external_body]
pub(crate) fn read_u16_le(bytes: &[u8]) -> (value: Option<u16>)
    ensures
        value == if bytes@.len() < 2 {
            None
        } else {
            Some(le16_at(bytes@, 0))
        },
{
    let mut cursor = bytes;
    cursor.read_u16::<LittleEndian>().ok()
}

/// Reads a little-endian `u32` from the front of `bytes` with
/// `byteorder::ReadBytesExt::read_u32`: the number in the first four bytes,
/// nothing where there are fewer.
#[verifier::external_body]
pub(crate) fn read_u32_le(bytes: &[u8]) -> (value: Option<u32>)
    ensures
        value == if bytes@.len() < 4 {
            None
        } else {
            Some(le32_at(bytes@, 0))
        },
{
    let mut cursor = bytes;
    cursor.read_u32::<LittleEndian>().ok()
}

/// Decodes an AMS header with `ads_proto`'s `AmsHeader::read_from` and takes
/// its command, error code, invoke id and data section: the fields at their
/// fixed offsets, a command above 9 read as 0, and as many data bytes as the
/// length field announces. That function makes room for the announced data
/// before it reads them: `requires` admits the headers that hold what they
/// announce.
#[verifier::external_body]
pub(crate) fn parse_ams_header(payload: &[u8]) -> (fields: Option<(u16, u32, u32, Vec<u8>)>)
    requires
        header_fields(payload@) is Some,
    ensures
        match fields {
            Some((command, ads_error, invoke_id, data)) => header_fields(payload@) == Some(
                (command, ads_error, invoke_id, data@),
            ),
            None => header_fields(payload@) is None,
        },
{
    let mut cursor = payload;
    let header = WireHeader::read_from(&mut cursor).ok()?;
    Some(
        (
            header.command_id().as_u16(),
            header.ads_error().as_u32(),
            header.invoke_id(),
            header.raw_response_data().to_vec(),
        ),
    )
}

/// The little-endian 64-bit number at `bytes[at..at + 8]`.
pub open spec fn le64_at(bytes: Seq<u8>, at: int) -> u64 {
    spec_u64_from_le_bytes(bytes.subrange(at, at + 8))
}

/// The `count` samples that start at `at`, one behind the other: each with
/// its handle, its size, and its data in as many bytes as the size says.
pub open spec fn samples_at(data: Seq<u8>, at: int, count: nat) -> Seq<(u32, u32, Seq<u8>)>
    decreases count,
{
    if count == 0 {
        Seq::empty()
    } else {
        seq![
            (
                le32_at(data, at),
                le32_at(data, at + 4),
                data.subrange(at + 8, at + 8 + le32_at(data, at + 4)),
            ),
        ] + samples_at(data, at + 8 + le32_at(data, at + 4), (count - 1) as nat)
    }
}

/// Stamp header `i` of a stream whose stamp headers take `size` bytes each:
/// its time stamp, the number of its samples, and the samples.
pub open spec fn stamp_at(data: Seq<u8>, size: int, i: int) -> (
    u64,
    u32,
    Seq<(u32, u32, Seq<u8>)>,
) {
    (
        le64_at(data, 8 + i * size),
        le32_at(data, 8 + i * size + 8),
        samples_at(data, 8 + i * size + 12, le32_at(data, 8 + i * size + 8) as nat),
    )
}

/// The notification stream in the data section of a device notification
/// frame that is laid out as `notification_layout` says: the length, the
/// number of stamp headers, and the stamp headers in equal parts of what the
/// length leaves behind the stamp counter.
pub open spec fn notification_stream(data: Seq<u8>) -> StreamView {
    (
        le32_at(data, 0),
        le32_at(data, 4),
        Seq::new(
            le32_at(data, 4) as nat,
            |i: int| stamp_at(data, (le32_at(data, 0) - 4) / (le32_at(data, 4) as int), i),
        ),
    )
}

/// `count` samples fit between `at` and `end`: each has its handle and its
/// size in eight bytes, and its data in as many bytes as the size says.
pub open spec fn samples_fit(data: Seq<u8>, at: int, end: int, count: nat) -> bool
    decreases count,
{
    count == 0 || (at + 8 <= end && at + 8 + le32_at(data, at + 4) <= end && samples_fit(
        data,
        at + 8 + le32_at(data, at + 4),
        end,
        (count - 1) as nat,
    ))
}

/// Stamp header `i` of a stream whose stamp headers take `size` bytes each
/// holds all the samples that it announces: behind time stamp and sample
/// count, which take twelve bytes.
pub open spec fn stamp_fits(data: Seq<u8>, size: int, i: int) -> bool {
    samples_fit(
        data,
        8 + i * size + 12,
        8 + (i + 1) * size,
        le32_at(data, 8 + i * size + 8) as nat,
    )
}

/// The data sections that `decode_device_notification` accepts. The length
/// in the first four bytes counts the stamp counter behind it and the stamp
/// headers; the stamp headers share what is left of it in equal parts of
/// twelve bytes at least; all of them are there, and each holds the samples
/// that it announces.
pub open spec fn notification_layout(data: Seq<u8>) -> bool {
    &&& data.len() >= 8
    &&& le32_at(data, 0) >= 4
    &&& le32_at(data, 4) >= 1
    &&& (le32_at(data, 0) - 4) / (le32_at(data, 4) as int) >= 12
    &&& 8 + le32_at(data, 4) * ((le32_at(data, 0) - 4) / (le32_at(data, 4) as int)) <= data.len()
    &&& forall|i: int|
        0 <= i < le32_at(data, 4) ==> #[trigger] stamp_fits(
            data,
            (le32_at(data, 0) - 4) / (le32_at(data, 4) as int),
            i,
        )
}

/// Tells whether the samples that a stamp header announces fit into it.
fn samples_fit_ok(data: &[u8], start: usize, end: usize, count: u32) -> (ok: bool)
    requires
        start <= end <= data@.len(),
    ensures
        ok == samples_fit(data@, start as int, end as int, count as nat),
{
    let mut at: usize = start;
    let mut remaining: u32 = count;
    while remaining > 0
        invariant
            start <= at <= end <= data@.len(),
            samples_fit(data@, start as int, end as int, count as nat) == samples_fit(
                data@,
                at as int,
                end as int,
                remaining as nat,
            ),
        decreases remaining,
    {
        if end - at < 8 {
            return false;
        }
        let size_at = slice_subrange(data, at + 4, data.len());
        assert(size_at@.subrange(0, 4) =~= data@.subrange(at + 4, at + 8));
        let size: u32 = match read_u32_le(size_at) {
            Some(size) => size,
            None => {
                return false;
            },
        };
        if size as usize > end - at - 8 {
            return false;
        }
        at = at + 8 + size as usize;
        remaining = remaining - 1;
    }
    true
}

/// Tells whether `data` is laid out as a notification stream.
pub fn notification_layout_ok(data: &[u8]) -> (ok: bool)
    ensures
        ok == notification_layout(data@),
{
    if data.len() < 8 {
        return false;
    }
    let rest = slice_subrange(data, 4, data.len());
    assert(rest@.subrange(0, 4) =~= data@.subrange(4, 8));
    let (length, stamps): (u32, u32) = match (read_u32_le(data), read_u32_le(rest)) {
        (Some(length), Some(stamps)) => (length, stamps),
        _ => {
            return false;
        },
    };
    if length < 4 || stamps < 1 {
        return false;
    }
    let size: u32 = (length - 4) / stamps;
    if size < 12 {
        return false;
    }
    assert(stamps * size <= 0xFFFF_FFFF * 0xFFFF_FFFF) by (nonlinear_arith)
        requires
            0 <= stamps <= 0xFFFF_FFFF,
            0 <= size <= 0xFFFF_FFFF,
    ;
    let total: u64 = stamps as u64 * size as u64;
    if total > (data.len() - 8) as u64 {
        return false;
    }
    let size: usize = size as usize;
    let mut start: usize = 8;
    let mut i: u32 = 0;
    while i < stamps
        invariant
            i <= stamps,
            12 <= size,
            size == (le32_at(data@, 0) - 4) / (le32_at(data@, 4) as int),
            stamps == le32_at(data@, 4),
            8 + stamps * size <= data@.len() <= usize::MAX,
            start == 8 + i * size,
            forall|j: int| 0 <= j < i ==> #[trigger] stamp_fits(data@, size as int, j),
        decreases stamps - i,
    {
        assert((i + 1) * size <= stamps * size && (i + 1) * size == i * size + size)
            by (nonlinear_arith)
            requires
                0 <= i < stamps,
                0 <= size,
        ;
        assert(start + size <= data@.len());
        let count_at = slice_subrange(data, start + 8, data.len());
        assert(count_at@.subrange(0, 4) =~= data@.subrange(start + 8, start + 12));
        let count: u32 = match read_u32_le(count_at) {
            Some(count) => count,
            None => {
                return false;
            },
        };
        if !samples_fit_ok(data, start + 12, start + size, count) {
            assert(!stamp_fits(data@, size as int, i as int));
            return false;
        }
        assert(stamp_fits(data@, size as int, i as int));
        start = start + size;
        i = i + 1;
    }
    true
}

/// Decodes the answer to a device info request with `ads_proto`'s
/// `ReadDeviceInfoResponse::read_from`: result, major and minor version, build
/// and sixteen name bytes, from the first 24 bytes.
#[verifier::external_body]
pub(crate) fn decode_read_device_info(data: &[u8]) -> (response: Option<ReadDeviceInfoResponse>)
    ensures
        match response {
            Some(r) => {
                &&& data@.len() >= 24
                &&& r.result == le32_at(data@, 0)
                &&& r.major_version == data@[4]
                &&& r.minor_version == data@[5]
                &&& r.version_build == le16_at(data@, 6)
                &&& r.device_name@ == data@.subrange(8, 24)
            },
            None => data@.len() < 24,
        },
{
    let mut cursor = data;
    let r = ads_proto::proto::response::ReadDeviceInfoResponse::read_from(&mut cursor).ok()?;
    Some(
        ReadDeviceInfoResponse {
            result: r.result.as_u32(),
            major_version: r.major_version,
            minor_version: r.minor_version,
            version_build: r.version_build,
            device_name: r.device_name,
        },
    )
}

/// The answers to a read or a read-write that hold no fewer data bytes than
/// they announce behind their result.
pub open spec fn announced_data_present(data: Seq<u8>) -> bool {
    data.len() >= 8 ==> le32_at(data, 4) <= data.len() - 8
}

/// Decodes the answer to a read with `ads_proto`'s `ReadResponse::read_from`:
/// result and announced length from the first eight bytes, and all bytes
/// behind them as the data. That function makes room for the announced
/// length before it reads: `requires` admits the answers that hold what they
/// announce.
#[verifier::external_body]
pub(crate) fn decode_read(data: &[u8]) -> (response: Option<ReadResponse>)
    requires
        announced_data_present(data@),
    ensures
        match response {
            Some(r) => {
                &&& data@.len() >= 8
                &&& r.result == le32_at(data@, 0)
                &&& r.length == le32_at(data@, 4)
                &&& r.data@ == data@.subrange(8, data@.len() as int)
            },
            None => data@.len() < 8,
        },
{
    let mut cursor = data;
    let r = ads_proto::proto::response::ReadResponse::read_from(&mut cursor).ok()?;
    Some(ReadResponse { result: r.result.as_u32(), length: r.length, data: r.data })
}

/// Decodes the answer to a write with `ads_proto`'s `WriteResponse::read_from`:
/// the result in the first four bytes.
#[verifier::external_body]
pub(crate) fn decode_write(data: &[u8]) -> (response: Option<WriteResponse>)
    ensures
        response == if data@.len() < 4 {
            None
        } else {
            Some(WriteResponse { result: le32_at(data@, 0) })
        },
{
    let mut cursor = data;
    let r = ads_proto::proto::response::WriteResponse::read_from(&mut cursor).ok()?;
    Some(WriteResponse { result: r.result.as_u32() })
}

/// Decodes the answer to a state request with `ads_proto`'s
/// `ReadStateResponse::read_from` and hands out result, ADS state and device
/// state as numbers; a state above 16 comes out as 0.
#[verifier::external_body]
pub(crate) fn decode_read_state(data: &[u8]) -> (fields: Option<(u32, u16, u16)>)
    ensures
        fields == if data@.len() < 8 {
            None
        } else {
            Some(
                (
                    le32_at(data@, 0),
                    AdsState::from_u16(le16_at(data@, 4)).as_u16(),
                    le16_at(data@, 6),
                ),
            )
        },
{
    let mut cursor = data;
    let r = ads_proto::proto::response::ReadStateResponse::read_from(&mut cursor).ok()?;
    Some((r.result.as_u32(), r.ads_state.as_u16(), r.device_state))
}

/// Decodes the answer to a write control request with `ads_proto`'s
/// `WriteControlResponse::read_from`: the result in the first four bytes.
#[verifier::external_body]
pub(crate) fn decode_write_control(data: &[u8]) -> (response: Option<WriteControlResponse>)
    ensures
        response == if data@.len() < 4 {
            None
        } else {
            Some(WriteControlResponse { result: le32_at(data@, 0) })
        },
{
    let mut cursor = data;
    let r = ads_proto::proto::response::WriteControlResponse::read_from(&mut cursor).ok()?;
    Some(WriteControlResponse { result: r.result.as_u32() })
}

/// Decodes the answer to a subscription with `ads_proto`'s
/// `AddDeviceNotificationResponse::read_from`: result and notification handle,
/// four bytes each.
#[verifier::external_body]
pub(crate) fn decode_add_device_notification(data: &[u8]) -> (response: Option<
    AddDeviceNotificationResponse,
>)
    ensures
        response == if data@.len() < 8 {
            None
        } else {
            Some(
                AddDeviceNotificationResponse {
                    result: le32_at(data@, 0),
                    notification_handle: le32_at(data@, 4),
                },
            )
        },
{
    let mut cursor = data;
    let r = ads_proto::proto::response::AddDeviceNotificationResponse::read_from(&mut cursor).ok()?;
    Some(
        AddDeviceNotificationResponse {
            result: r.result.as_u32(),
            notification_handle: r.notification_handle,
        },
    )
}

/// Decodes the answer to the end of a subscription with `ads_proto`'s
/// `DeleteDeviceNotificationResponse::read_from`: the result in the first four
/// bytes.
#[verifier::external_body]
pub(crate) fn decode_delete_device_notification(data: &[u8]) -> (response: Option<
    DeleteDeviceNotificationResponse,
>)
    ensures
        response == if data@.len() < 4 {
            None
        } else {
            Some(DeleteDeviceNotificationResponse { result: le32_at(data@, 0) })
        },
{
    let mut cursor = data;
    let r = ads_proto::proto::response::DeleteDeviceNotificationResponse::read_from(
        &mut cursor,
    ).ok()?;
    Some(DeleteDeviceNotificationResponse { result: r.result.as_u32() })
}

/// Decodes the answer to a read-write with `ads_proto`'s
/// `ReadWriteResponse::read_from`: result and announced length from the first
/// eight bytes, and all bytes behind them as the data. That function makes
/// room for the announced length before it reads: `requires` admits the
/// answers that hold what they announce.
#[verifier::external_body]
pub(crate) fn decode_read_write(data: &[u8]) -> (response: Option<ReadWriteResponse>)
    requires
        announced_data_present(data@),
    ensures
        match response {
            Some(r) => {
                &&& data@.len() >= 8
                &&& r.result == le32_at(data@, 0)
                &&& r.length == le32_at(data@, 4)
                &&& r.data@ == data@.subrange(8, data@.len() as int)
            },
            None => data@.len() < 8,
        },
{
    let mut cursor = data;
    let r = ads_proto::proto::response::ReadWriteResponse::read_from(&mut cursor).ok()?;
    Some(ReadWriteResponse { result: r.result.as_u32(), length: r.length, data: r.data })
}

/// Decodes a notification stream with `ads_proto`'s
/// `AdsNotificationStream::read_from`: length and number of stamps from the
/// first eight bytes, then the stamp headers, each in its equal part, with
/// its time stamp, its sample count and its samples. That function subtracts
/// 4 from the announced length, divides by the number of stamps, and makes
/// room for every announced stamp, sample and size before it reads:
/// `requires` admits the streams that hold what they announce, and on those
/// it succeeds.
#[verifier::external_body]
pub(crate) fn decode_device_notification(data: &[u8]) -> (stream: Option<AdsNotificationStream>)
    requires
        notification_layout(data@),
    ensures
        match stream {
            Some(s) => s@ == notification_stream(data@),
            None => false,
        },
{
    let mut cursor = data;
    let s = ads_proto::proto::response::AdsNotificationStream::read_from(&mut cursor).ok()?;
    let stamp = |h: ads_proto::proto::response::AdsStampHeader| AdsStampHeader {
        time_stamp: h.time_stamp,
        samples: h.samples,
        notification_samples: h.notification_samples.into_iter().map(|n| AdsNotificationSample {
            notification_handle: n.notification_handle,
            sample_size: n.sample_size,
            data: n.data,
        }).collect(),
    };
    let ads_stamp_headers = s.ads_stamp_headers.into_iter().map(stamp).collect();
    Some(AdsNotificationStream { length: s.length, stamps: s.stamps, ads_stamp_headers })
}

/// The requests that fit into one frame: the variable part is short enough for
/// the length fields to hold the true lengths.
pub open spec fn fits_frame(request: Request) -> bool {
    request_body_len(request) <= MAX_REQUEST_BODY
}

/// The frame that carries `request` from `source` to `target` under `invoke_id`.
pub open spec fn frame_of(
    target: AmsAddress,
    source: AmsAddress,
    invoke_id: u32,
    request: Request,
) -> Seq<u8> {
    request_frame(target, source, invoke_id, request.command_id(), request_data(request))
}

/// Builds the frame of a device info request with `ads_proto`: `AmsHeader::new`
/// on the request, `AmsTcpHeader::from`, `write_to`. The frame is the layout
/// that `request_frame` states, with an empty data section.
#[verifier::external_body]
pub(crate) fn encode_read_device_info(
    target: &AmsAddress,
    source: &AmsAddress,
    invoke_id: u32,
) -> (frame: Vec<u8>)
    ensures
        frame@ == frame_of(*target, *source, invoke_id, Request::ReadDeviceInfo),
{
    let target = WireAddress::new(AmsNetId::from(target.net_id), target.port);
    let source = WireAddress::new(AmsNetId::from(source.net_id), source.port);
    let request = wire::Request::ReadDeviceInfo(wire::ReadDeviceInfoRequest::new());
    let header = WireHeader::new(target, source, StateFlags::req_default(), invoke_id, request);
    let mut frame = Vec::new();
    let _ = AmsTcpHeader::from(header).write_to(&mut frame);
    frame
}

/// Builds the frame of a state request with `ads_proto`, as
/// `encode_read_device_info` does; the data section is empty.
#[verifier::external_body]
pub(crate) fn encode_read_state(target: &AmsAddress, source: &AmsAddress, invoke_id: u32) -> (frame:
    Vec<u8>)
    ensures
        frame@ == frame_of(*target, *source, invoke_id, Request::ReadState),
{
    let target = WireAddress::new(AmsNetId::from(target.net_id), target.port);
    let source = WireAddress::new(AmsNetId::from(source.net_id), source.port);
    let request = wire::Request::ReadState(wire::ReadStateRequest::new());
    let header = WireHeader::new(target, source, StateFlags::req_default(), invoke_id, request);
    let mut frame = Vec::new();
    let _ = AmsTcpHeader::from(header).write_to(&mut frame);
    frame
}

/// Builds the frame of a read with `ads_proto`; the data section is index
/// group, index offset and length, four bytes each.
#[verifier::external_body]
pub(crate) fn encode_read(
    target: &AmsAddress,
    source: &AmsAddress,
    invoke_id: u32,
    r: &ReadRequest,
) -> (frame: Vec<u8>)
    ensures
        frame@ == frame_of(*target, *source, invoke_id, Request::Read(*r)),
{
    let target = WireAddress::new(AmsNetId::from(target.net_id), target.port);
    let source = WireAddress::new(AmsNetId::from(source.net_id), source.port);
    let read = wire::ReadRequest::new(r.index_group, r.index_offset, r.length);
    let request = wire::Request::Read(read);
    let header = WireHeader::new(target, source, StateFlags::req_default(), invoke_id, request);
    let mut frame = Vec::new();
    let _ = AmsTcpHeader::from(header).write_to(&mut frame);
    frame
}

/// Builds the frame of a write with `ads_proto`; the data section is index
/// group, index offset, the length of the data, then the data.
#[verifier::external_body]
pub(crate) fn encode_write(
    target: &AmsAddress,
    source: &AmsAddress,
    invoke_id: u32,
    w: &WriteRequest,
) -> (frame: Vec<u8>)
    requires
        w.data@.len() <= MAX_REQUEST_BODY,
    ensures
        frame@ == frame_of(*target, *source, invoke_id, Request::Write(*w)),
{
    let target = WireAddress::new(AmsNetId::from(target.net_id), target.port);
    let source = WireAddress::new(AmsNetId::from(source.net_id), source.port);
    let write = wire::WriteRequest::new(w.index_group, w.index_offset, w.data.clone());
    let request = wire::Request::Write(write);
    let header = WireHeader::new(target, source, StateFlags::req_default(), invoke_id, request);
    let mut frame = Vec::new();
    let _ = AmsTcpHeader::from(header).write_to(&mut frame);
    frame
}

/// Builds the frame of a write control request with `ads_proto`; the data
/// section is ADS state and device state, two bytes each, the length field as
/// given, then the data. `ads_state` is the number of the request's state.
#[verifier::external_body]
pub(crate) fn encode_write_control(
    target: &AmsAddress,
    source: &AmsAddress,
    invoke_id: u32,
    c: &WriteControlRequest,
    ads_state: u16,
) -> (frame: Vec<u8>)
    requires
        c.data@.len() <= MAX_REQUEST_BODY,
        ads_state == c.ads_state.as_u16(),
    ensures
        frame@ == frame_of(*target, *source, invoke_id, Request::WriteControl(*c)),
{
    let target = WireAddress::new(AmsNetId::from(target.net_id), target.port);
    let source = WireAddress::new(AmsNetId::from(source.net_id), source.port);
    let state = WireAdsState::from(ads_state);
    let control = wire::WriteControlRequest::new(state, c.device_state, c.length, c.data.clone());
    let request = wire::Request::WriteControl(control);
    let header = WireHeader::new(target, source, StateFlags::req_default(), invoke_id, request);
    let mut frame = Vec::new();
    let _ = AmsTcpHeader::from(header).write_to(&mut frame);
    frame
}

/// Builds the frame of a subscription with `ads_proto`; the data section is
/// index group, index offset, length, transmission mode, maximal delay and
/// cycle time, four bytes each, then sixteen zero bytes. `mode` is the number
/// of the request's transmission mode.
#[verifier::external_body]
pub(crate) fn encode_add_device_notification(
    target: &AmsAddress,
    source: &AmsAddress,
    invoke_id: u32,
    a: &AddDeviceNotificationRequest,
    mode: u32,
) -> (frame: Vec<u8>)
    requires
        mode == a.transmission_mode.as_u32(),
    ensures
        frame@ == frame_of(*target, *source, invoke_id, Request::AddDeviceNotification(*a)),
{
    let target = WireAddress::new(AmsNetId::from(target.net_id), target.port);
    let source = WireAddress::new(AmsNetId::from(source.net_id), source.port);
    let (group, offset, mode) = (a.index_group, a.index_offset, WireTransMode::from(mode));
    let add = wire::AddDeviceNotificationRequest::new(
        group, offset, a.length, mode, a.max_delay, a.cycle_time,
    );
    let request = wire::Request::AddDeviceNotification(add);
    let header = WireHeader::new(target, source, StateFlags::req_default(), invoke_id, request);
    let mut frame = Vec::new();
    let _ = AmsTcpHeader::from(header).write_to(&mut frame);
    frame
}

/// Builds the frame that ends a subscription with `ads_proto`; the data
/// section is the notification handle.
#[verifier::external_body]
pub(crate) fn encode_delete_device_notification(
    target: &AmsAddress,
    source: &AmsAddress,
    invoke_id: u32,
    d: &DeleteDeviceNotificationRequest,
) -> (frame: Vec<u8>)
    ensures
        frame@ == frame_of(*target, *source, invoke_id, Request::DeleteDeviceNotification(*d)),
{
    let target = WireAddress::new(AmsNetId::from(target.net_id), target.port);
    let source = WireAddress::new(AmsNetId::from(source.net_id), source.port);
    let delete = wire::DeleteDeviceNotificationRequest::new(d.handle);
    let request = wire::Request::DeleteDeviceNotification(delete);
    let header = WireHeader::new(target, source, StateFlags::req_default(), invoke_id, request);
    let mut frame = Vec::new();
    let _ = AmsTcpHeader::from(header).write_to(&mut frame);
    frame
}

/// Builds the frame of a read-write with `ads_proto`; the data section is
/// index group, index offset, read length, the length of the data, then the
/// data.
#[verifier::external_body]
pub(crate) fn encode_read_write(
    target: &AmsAddress,
    source: &AmsAddress,
    invoke_id: u32,
    rw: &ReadWriteRequest,
) -> (frame: Vec<u8>)
    requires
        rw.data@.len() <= MAX_REQUEST_BODY,
    ensures
        frame@ == frame_of(*target, *source, invoke_id, Request::ReadWrite(*rw)),
{
    let target = WireAddress::new(AmsNetId::from(target.net_id), target.port);
    let source = WireAddress::new(AmsNetId::from(source.net_id), source.port);
    let (group, offset) = (rw.index_group, rw.index_offset);
    let read_write = wire::ReadWriteRequest::new(group, offset, rw.read_length, rw.data.clone());
    let request = wire::Request::ReadWrite(read_write);
    let header = WireHeader::new(target, source, StateFlags::req_default(), invoke_id, request);
    let mut frame = Vec::new();
    let _ = AmsTcpHeader::from(header).write_to(&mut frame);
    frame
}

/// Builds the frame of any request.
pub fn encode_request(
    target: &AmsAddress,
    source: &AmsAddress,
    invoke_id: u32,
    request: &Request,
) -> (frame: Vec<u8>)
    requires
        fits_frame(*request),
    ensures
        frame@ == frame_of(*target, *source, invoke_id, *request),
{
    match request {
        Request::ReadDeviceInfo => encode_read_device_info(target, source, invoke_id),
        Request::ReadState => encode_read_state(target, source, invoke_id),
        Request::Read(r) => encode_read(target, source, invoke_id, r),
        Request::Write(w) => encode_write(target, source, invoke_id, w),
        Request::WriteControl(c) => encode_write_control(
            target,
            source,
            invoke_id,
            c,
            c.ads_state.as_u16(),
        ),
        Request::AddDeviceNotification(a) => encode_add_device_notification(
            target,
            source,
            invoke_id,
            a,
            a.transmission_mode.as_u32(),
        ),
        Request::DeleteDeviceNotification(d) => encode_delete_device_notification(
            target,
            source,
            invoke_id,
            d,
        ),
        Request::ReadWrite(rw) => encode_read_write(target, source, invoke_id, rw),
    }
}

/// Tells whether a request fits into one frame.
pub fn request_fits(request: &Request) -> (fits: bool)
    ensures
        fits == fits_frame(*request),
{
    match request {
        Request::Write(w) => w.data.len() <= MAX_REQUEST_BODY,
        Request::WriteControl(c) => c.data.len() <= MAX_REQUEST_BODY,
        Request::ReadWrite(rw) => rw.data.len() <= MAX_REQUEST_BODY,
        _ => true,
    }
}

/// Decodes an address with `ads_proto`'s `AmsAddress::read_from`: six bytes of
/// net id, then the port.
#[verifier::external_body]
pub(crate) fn decode_ams_address(bytes: &[u8]) -> (address: Option<AmsAddress>)
    ensures
        match address {
            Some(a) => {
                &&& bytes@.len() >= 8
                &&& a.net_id@ == bytes@.subrange(0, 6)
                &&& a.port == le16_at(bytes@, 6)
            },
            None => bytes@.len() < 8,
        },
{
    let mut cursor = bytes;
    let address = WireAddress::read_from(&mut cursor).ok()?;
    Some(AmsAddress { net_id: address.ams_net_id.net_id(), port: address.port })
}

/// Bundled reads on the wire: the reads one after the other, each as index
/// group, index offset and length.
pub open spec fn read_records(requests: Seq<ReadRequest>) -> Seq<u8>
    decreases requests.len(),
{
    if requests.len() == 0 {
        Seq::empty()
    } else {
        read_records(requests.drop_last()) + request_data(Request::Read(requests.last()))
    }
}

/// The headers of bundled writes on the wire: for each write its index group,
/// its index offset and the length of its data.
pub open spec fn write_records(requests: Seq<WriteRequest>) -> Seq<u8>
    decreases requests.len(),
{
    if requests.len() == 0 {
        Seq::empty()
    } else {
        write_records(requests.drop_last()) + spec_u32_to_le_bytes(requests.last().index_group)
            + spec_u32_to_le_bytes(requests.last().index_offset) + spec_u32_to_le_bytes(
            requests.last().data@.len() as u32,
        )
    }
}

/// The data of bundled writes on the wire, one after the other.
pub open spec fn write_bodies(requests: Seq<WriteRequest>) -> Seq<u8>
    decreases requests.len(),
{
    if requests.len() == 0 {
        Seq::empty()
    } else {
        write_bodies(requests.drop_last()) + requests.last().data@
    }
}

/// The sum of the lengths that the first `n` answers of a bundled read
/// announce; the length of answer `i` stands at byte `8 * i + 4`.
pub open spec fn sumup_read_lengths(data: Seq<u8>, n: nat) -> nat
    decreases n,
{
    if n == 0 {
        0
    } else {
        sumup_read_lengths(data, (n - 1) as nat) + le32_at(data, 8 * (n - 1) + 4) as nat
    }
}

/// The answers to `n` bundled reads: `n` pairs of result and length, then
/// exactly the announced data.
pub open spec fn sumup_read_layout(data: Seq<u8>, n: nat) -> bool {
    data.len() <= u32::MAX && data.len() == 8 * n + sumup_read_lengths(data, n)
}

/// `response` is answer `i` of the answers to `count` bundled reads in `data`:
/// its result stands at byte `8 * i`, its length behind it, and its data
/// behind the pairs of all answers and the data of the answers before it.
pub open spec fn sumup_read_answer(data: Seq<u8>, count: nat, i: int, response: ReadResponse) -> bool {
    &&& response.result == le32_at(data, 8 * i)
    &&& response.length == le32_at(data, 8 * i + 4)
    &&& response.data@ == data.subrange(
        8 * count as int + sumup_read_lengths(data, i as nat) as int,
        8 * count as int + sumup_read_lengths(data, (i + 1) as nat) as int,
    )
}

/// Writes bundled reads with `ads_proto`'s `SumupReadRequest::write_to`: the
/// reads follow each other, twelve bytes each.
#[verifier::external_body]
pub(crate) fn encode_sumup_read(requests: &Vec<ReadRequest>) -> (bytes: Vec<u8>)
    ensures
        bytes@ == read_records(requests@),
{
    let reads = requests.iter().map(
        |r| wire::ReadRequest::new(r.index_group, r.index_offset, r.length),
    ).collect();
    let mut bytes = Vec::new();
    let _ = SumupReadRequest::new(reads).write_to(&mut bytes);
    bytes
}

/// Writes bundled writes with `ads_proto`'s `SumupWriteRequest::write_to`:
/// first the header of every write, then the data of every write.
#[verifier::external_body]
pub(crate) fn encode_sumup_write(requests: &Vec<WriteRequest>) -> (bytes: Vec<u8>)
    requires
        forall|i: int| 0 <= i < requests@.len() ==> (#[trigger] requests@[i]).data@.len() <= u32::MAX,
    ensures
        bytes@ == write_records(requests@) + write_bodies(requests@),
{
    let writes = requests.iter().map(
        |w| wire::WriteRequest::new(w.index_group, w.index_offset, w.data.clone()),
    ).collect();
    let mut bytes = Vec::new();
    let _ = SumupWriteRequest::new(writes).write_to(&mut bytes);
    bytes
}

/// Decodes the answers to `count` bundled reads with `ads_proto`'s
/// `SumupReadResponse::read_from`, answer by answer as `sumup_read_answer`
/// says. That function adds up and subtracts the announced lengths:
/// `requires` admits the layouts on which the sums fit.
#[verifier::external_body]
pub(crate) fn decode_sumup_read(data: &[u8], count: usize) -> (responses: Vec<ReadResponse>)
    requires
        sumup_read_layout(data@, count as nat),
    ensures
        responses@.len() == count,
        forall|i: int|
            0 <= i < count ==> sumup_read_answer(data@, count as nat, i, #[trigger] responses@[i]),
{
    let mut cursor = data;
    match SumupReadResponse::read_from(&mut cursor) {
        Ok(sumup) => sumup.read_responses.into_iter().map(
            |r| ReadResponse { result: r.result.as_u32(), length: r.length, data: r.data },
        ).collect(),
        Err(_) => Vec::new(),
    }
}

/// Decodes the answers to bundled writes with `ads_proto`'s
/// `SumupWriteResponse::read_from`: one result for every four bytes.
#[verifier::external_body]
pub(crate) fn decode_sumup_write(data: &[u8]) -> (responses: Vec<WriteResponse>)
    ensures
        responses@.len() == data@.len() / 4,
        forall|i: int|
            0 <= i < responses@.len() ==> (#[trigger] responses@[i]).result == le32_at(
                data@,
                4 * i,
            ),
{
    let mut cursor = data;
    match SumupWriteResponse::read_from(&mut cursor) {
        Ok(sumup) => sumup.write_responses.into_iter().map(
            |r| WriteResponse { result: r.result.as_u32() },
        ).collect(),
        Err(_) => Vec::new(),
    }
}

/// The announced lengths only add up.
pub proof fn lemma_sumup_read_lengths_grow(data: Seq<u8>, i: nat, n: nat)
    requires
        i <= n,
    ensures
        sumup_read_lengths(data, i) <= sumup_read_lengths(data, n),
    decreases n,
{
    if i < n {
        lemma_sumup_read_lengths_grow(data, i, (n - 1) as nat);
    }
}

/// Tells whether `data` holds the answers to `count` bundled reads.
pub fn sumup_read_layout_ok(data: &[u8], count: usize) -> (ok: bool)
    ensures
        ok == sumup_read_layout(data@, count as nat),
{
    if data.len() > 0xFFFF_FFFF {
        return false;
    }
    if count > data.len() / 8 {
        return false;
    }
    let room: usize = data.len() - 8 * count;
    let mut total: usize = 0;
    let mut i: usize = 0;
    while i < count
        invariant
            i <= count,
            data@.len() <= 0xFFFF_FFFF,
            8 * count <= data@.len(),
            room == data@.len() - 8 * count,
            total == sumup_read_lengths(data@, i as nat),
            total <= room,
        decreases count - i,
    {
        let at = slice_subrange(data, 8 * i + 4, data.len());
        assert(at@.subrange(0, 4) =~= data@.subrange(8 * i + 4, 8 * i + 8));
        let length: u32 = match read_u32_le(at) {
            Some(length) => length,
            None => {
                return false;
            },
        };
        if length as usize > room - total {
            proof {
                lemma_sumup_read_lengths_grow(data@, (i + 1) as nat, count as nat);
            }
            return false;
        }
        total = total + length as usize;
        i += 1;
    }
    total == room
}

/// Index group of the service that gives out a handle for a variable name.
pub const GET_SYMHANDLE_BY_NAME: u32 = 0x0000_F003;

/// Index group of the service that reads and writes the variable behind a
/// handle; the handle is the index offset.
pub const READ_WRITE_SYMVAL_BY_HANDLE: u32 = 0x0000_F005;

/// Index group of the service that releases a handle.
pub const RELEASE_SYMHANDLE: u32 = 0x0000_F006;

/// Index group of the service that runs several writes in one request; the
/// number of writes is the index offset.
pub const ADSIGRP_SUMUP_WRITE: u32 = 0x0000_F081;

/// Index group of the service that runs several reads in one request and
/// answers each with its result and length; the number of reads is the index
/// offset.
pub const ADSIGRP_SUMUP_READEX: u32 = 0x0000_F083;

/// Takes the index group of `ads_proto`'s service `GET_SYMHANDLE_BY_NAME`,
/// which is 0xF003.
#[verifier::external_body]
pub(crate) fn symhandle_by_name_group() -> (group: u32)
    ensures
        group == GET_SYMHANDLE_BY_NAME,
{
    services::GET_SYMHANDLE_BY_NAME.index_group
}

/// Takes the index group of `ads_proto`'s service
/// `READ_WRITE_SYMVAL_BY_HANDLE`, which is 0xF005.
#[verifier::external_body]
pub(crate) fn symval_by_handle_group() -> (group: u32)
    ensures
        group == READ_WRITE_SYMVAL_BY_HANDLE,
{
    services::READ_WRITE_SYMVAL_BY_HANDLE.index_group
}

/// Takes the index group of `ads_proto`'s service `RELEASE_SYMHANDLE`, which
/// is 0xF006.
#[verifier::external_body]
pub(crate) fn release_symhandle_group() -> (group: u32)
    ensures
        group == RELEASE_SYMHANDLE,
{
    services::RELEASE_SYMHANDLE.index_group
}

/// Takes the index group of `ads_proto`'s service `ADSIGRP_SUMUP_WRITE`,
/// which is 0xF081.
#[verifier::external_body]
pub(crate) fn sumup_write_group() -> (group: u32)
    ensures
        group == ADSIGRP_SUMUP_WRITE,
{
    services::ADSIGRP_SUMUP_WRITE.index_group
}

/// Takes the index group of `ads_proto`'s service `ADSIGRP_SUMUP_READEX`,
/// which is 0xF083.
#[verifier::external_body]
pub(crate) fn sumup_readex_group() -> (group: u32)
    ensures
        group == ADSIGRP_SUMUP_READEX,
{
    services::ADSIGRP_SUMUP_READEX.index_group
}

} // verus!
