//! The reader's side of a connection: framing, decoding, and the two
//! correlation tables that route what arrives to the sinks that wait for it.
//!
//! A sink is whatever the program around the library uses to hand a value to a
//! waiting caller; the tables only keep, hand out and drop sinks. One-shot
//! sinks leave their table together with the one message they are meant for.
use crate::codec::address_bytes;
use crate::codec::ams_header_bytes;
use crate::codec::AMS_HEADER_SIZE;
use crate::codec::ams_tcp_frame;
use crate::codec::announced_data_present;
use crate::codec::decode_add_device_notification;
use crate::codec::decode_delete_device_notification;
use crate::codec::decode_device_notification;
use crate::codec::decode_read;
use crate::codec::decode_read_device_info;
use crate::codec::decode_read_state;
use crate::codec::decode_read_write;
use crate::codec::decode_write;
use crate::codec::decode_write_control;
use crate::codec::fits_frame;
use crate::codec::frame_of;
use crate::codec::header_fields;
use crate::codec::le16_at;
use crate::codec::le32_at;
use crate::codec::notification_layout;
use crate::codec::notification_layout_ok;
use crate::codec::notification_stream;
use crate::codec::parse_ams_header;
use crate::codec::read_u16_le;
use crate::codec::read_u32_le;
use crate::codec::request_body_len;
use crate::codec::request_data;
use crate::codec::REQUEST_STATE_FLAGS;
use crate::error::ClientError;
use crate::error::ClientResult;
use crate::error::ERR_NO_ERROR;
use crate::error::ERR_PORT_NOT_CONNECTED;
use crate::proto::AdsNotificationStream;
use crate::proto::AdsState;
use crate::proto::AmsAddress;
use crate::proto::AmsHeader;
use crate::proto::CommandID;
use crate::proto::ReadStateResponse;
use crate::proto::Request;
use crate::proto::Response;
use std::collections::HashMap;
use vstd::bytes::lemma_auto_spec_u16_to_from_le_bytes;
use vstd::bytes::lemma_auto_spec_u32_to_from_le_bytes;
use vstd::bytes::spec_u16_to_le_bytes;
use vstd::bytes::spec_u32_to_le_bytes;
use vstd::prelude::*;
use vstd::slice::slice_subrange;
use vstd::std_specs::hash::group_hash_axioms;
use vstd::std_specs::iter::IteratorSpec;

verus! {

broadcast use group_hash_axioms;

/// Size of the AMS/TCP prefix: two reserved bytes and the length of the AMS header.
pub const AMS_TCP_HEADER_SIZE: usize = 6;

/// Why no AMS header came out of a read.
#[derive(Debug, Clone, Copy, PartialEq, Eq, Structural)]
pub enum ReadError {
    /// The transport ended inside or before a frame.
    UnexpectedEof,
    /// The transport failed in another way.
    Transport,
    /// The bytes of the frame are no AMS header.
    Malformed,
}

/// The length that an AMS/TCP prefix announces: the little-endian number in
/// its bytes 2 to 5. A prefix of fewer than six bytes announces nothing.
pub open spec fn spec_frame_length(prefix: Seq<u8>) -> Option<u32> {
    if prefix.len() < 6 {
        None
    } else {
        Some(le32_at(prefix, 2))
    }
}

/// Reads the length of the AMS header from an AMS/TCP prefix.
pub fn frame_length(prefix: &[u8]) -> (length: Option<u32>)
    ensures
        length == spec_frame_length(prefix@),
{
    if prefix.len() < AMS_TCP_HEADER_SIZE {
        return None;
    }
    let tail = slice_subrange(prefix, 2, prefix.len());
    assert(tail@.subrange(0, 4) =~= prefix@.subrange(2, 6));
    read_u32_le(tail)
}

/// `header` is what the bytes `payload` hold as an AMS header.
pub open spec fn header_of(payload: Seq<u8>, header: AmsHeader) -> bool {
    &&& header_fields(payload) == Some(
        (header.command_id.as_u16(), header.ads_error, header.invoke_id, header.data@),
    )
    &&& header.command_id == CommandID::from_u16(le16_at(payload, 16))
    &&& header.state_flags == le16_at(payload, 18)
}

/// Decodes the AMS header of a frame from the bytes behind the prefix.
pub fn decode_header(payload: &[u8]) -> (header: Option<AmsHeader>)
    ensures
        match header {
            Some(h) => header_of(payload@, h),
            None => header_fields(payload@) is None,
        },
{
    if payload.len() < AMS_HEADER_SIZE {
        return None;
    }
    let announced = slice_subrange(payload, 20, payload.len());
    assert(announced@.subrange(0, 4) =~= payload@.subrange(20, 24));
    match read_u32_le(announced) {
        Some(length) => {
            if length as usize > payload.len() - AMS_HEADER_SIZE {
                return None;
            }
        },
        None => {
            return None;
        },
    }
    match parse_ams_header(payload) {
        Some((command, ads_error, invoke_id, data)) => {
            let flags = slice_subrange(payload, 18, payload.len());
            assert(flags@.subrange(0, 2) =~= payload@.subrange(18, 20));
            match read_u16_le(flags) {
                Some(state_flags) => Some(
                    AmsHeader {
                        command_id: CommandID::from_u16(command),
                        state_flags,
                        ads_error,
                        invoke_id,
                        data,
                    },
                ),
                None => None,
            }
        },
        None => None,
    }
}

/// One read of the reader: the six byte prefix in full, then exactly as many
/// bytes as it announces, then the AMS header in them. `read_exact` stands for
/// the transport: called with a number, it hands out that many bytes or fails.
/// A transport that hands out another number of bytes than asked for has
/// ended inside a frame.
pub open spec fn read_outcome<F: Fn(usize) -> Result<Vec<u8>, ReadError>>(
    read_exact: &F,
    outcome: Result<AmsHeader, ReadError>,
) -> bool {
    exists|prefix: Result<Vec<u8>, ReadError>| #[trigger]
        call_ensures(*read_exact, (AMS_TCP_HEADER_SIZE,), prefix) && match prefix {
            Err(e) => outcome == Err::<AmsHeader, ReadError>(e),
            Ok(p) => match spec_frame_length(p@) {
                None => outcome == Err::<AmsHeader, ReadError>(ReadError::UnexpectedEof),
                Some(length) => exists|payload: Result<Vec<u8>, ReadError>| #[trigger]
                    call_ensures(*read_exact, (length as usize,), payload) && match payload {
                        Err(e) => outcome == Err::<AmsHeader, ReadError>(e),
                        Ok(bytes) => if bytes@.len() != length {
                            outcome == Err::<AmsHeader, ReadError>(ReadError::UnexpectedEof)
                        } else {
                            match outcome {
                                Ok(h) => header_of(bytes@, h),
                                Err(e) => e == ReadError::Malformed && header_fields(bytes@)
                                    is None,
                            }
                        },
                    },
            },
        }
}

/// Reads one frame from the transport and decodes its AMS header.
pub fn read<F: Fn(usize) -> Result<Vec<u8>, ReadError>>(read_exact: &F) -> (outcome: Result<
    AmsHeader,
    ReadError,
>)
    requires
        forall|n: usize| call_requires(*read_exact, (n,)),
    ensures
        read_outcome(read_exact, outcome),
{
    let prefix = read_exact(AMS_TCP_HEADER_SIZE);
    let outcome = match &prefix {
        Err(e) => Err(*e),
        Ok(p) => match frame_length(p.as_slice()) {
            None => Err(ReadError::UnexpectedEof),
            Some(length) => {
                let payload = read_exact(length as usize);
                let outcome = match &payload {
                    Err(e) => Err(*e),
                    Ok(bytes) => if bytes.len() != length as usize {
                        Err(ReadError::UnexpectedEof)
                    } else {
                        match decode_header(bytes.as_slice()) {
                            Some(h) => Ok(h),
                            None => Err(ReadError::Malformed),
                        }
                    },
                };
                assert(call_ensures(*read_exact, (length as usize,), payload));
                outcome
            },
        },
    };
    assert(call_ensures(*read_exact, (AMS_TCP_HEADER_SIZE,), prefix));
    outcome
}

/// The frames that carry something for the client: responses, and device
/// notifications whatever their flags say.
pub open spec fn carries_response(header: AmsHeader) -> bool {
    header.state_flags & 1 == 1 || header.command_id == CommandID::DeviceNotification
}

/// The headers whose data section holds a response of the header's command.
pub open spec fn decodable(header: AmsHeader) -> bool {
    let data = header.data@;
    carries_response(header) && match header.command_id {
        CommandID::Invalid => false,
        CommandID::ReadDeviceInfo => data.len() >= 24,
        CommandID::Read => data.len() >= 8 && announced_data_present(data),
        CommandID::Write => data.len() >= 4,
        CommandID::ReadState => data.len() >= 8,
        CommandID::WriteControl => data.len() >= 4,
        CommandID::AddDeviceNotification => data.len() >= 8,
        CommandID::DeleteDeviceNotification => data.len() >= 4,
        CommandID::DeviceNotification => notification_layout(data),
        CommandID::ReadWrite => data.len() >= 8 && announced_data_present(data),
    }
}

/// `response` is the response that the data section of `header` holds.
pub open spec fn decodes_to(header: AmsHeader, response: Response) -> bool {
    let data = header.data@;
    decodable(header) && match response {
        Response::ReadDeviceInfo(r) => {
            &&& header.command_id == CommandID::ReadDeviceInfo
            &&& r.result == le32_at(data, 0)
            &&& r.major_version == data[4]
            &&& r.minor_version == data[5]
            &&& r.version_build == le16_at(data, 6)
            &&& r.device_name@ == data.subrange(8, 24)
        },
        Response::Read(r) => {
            &&& header.command_id == CommandID::Read
            &&& r.result == le32_at(data, 0)
            &&& r.length == le32_at(data, 4)
            &&& r.data@ == data.subrange(8, data.len() as int)
        },
        Response::Write(r) => {
            &&& header.command_id == CommandID::Write
            &&& r.result == le32_at(data, 0)
        },
        Response::ReadState(r) => {
            &&& header.command_id == CommandID::ReadState
            &&& r.result == le32_at(data, 0)
            &&& r.ads_state == AdsState::from_u16(le16_at(data, 4))
            &&& r.device_state == le16_at(data, 6)
        },
        Response::WriteControl(r) => {
            &&& header.command_id == CommandID::WriteControl
            &&& r.result == le32_at(data, 0)
        },
        Response::AddDeviceNotification(r) => {
            &&& header.command_id == CommandID::AddDeviceNotification
            &&& r.result == le32_at(data, 0)
            &&& r.notification_handle == le32_at(data, 4)
        },
        Response::DeleteDeviceNotification(r) => {
            &&& header.command_id == CommandID::DeleteDeviceNotification
            &&& r.result == le32_at(data, 0)
        },
        Response::DeviceNotification(stream) => {
            &&& header.command_id == CommandID::DeviceNotification
            &&& stream@ == notification_stream(data)
        },
        Response::ReadWrite(r) => {
            &&& header.command_id == CommandID::ReadWrite
            &&& r.result == le32_at(data, 0)
            &&& r.length == le32_at(data, 4)
            &&& r.data@ == data.subrange(8, data.len() as int)
        },
    }
}

/// Tells whether the answer to a read or a read-write holds the data that it
/// announces.
fn check_announced_data(data: &[u8]) -> (ok: bool)
    ensures
        ok == announced_data_present(data@),
{
    if data.len() < 8 {
        return true;
    }
    let rest = slice_subrange(data, 4, data.len());
    assert(rest@.subrange(0, 4) =~= data@.subrange(4, 8));
    match read_u32_le(rest) {
        Some(length) => length as usize <= data.len() - 8,
        None => false,
    }
}

/// Decodes the response in the data section of a received header, by the
/// header's command. A response that announces more data than it holds is
/// not decoded.
pub fn decode_response(header: &AmsHeader) -> (response: Option<Response>)
    ensures
        match response {
            Some(r) => decodes_to(*header, r),
            None => !decodable(*header),
        },
{
    let is_notification = match header.command_id {
        CommandID::DeviceNotification => true,
        _ => false,
    };
    if header.state_flags & 1 != 1 && !is_notification {
        return None;
    }
    let data = header.data.as_slice();
    match header.command_id {
        CommandID::Invalid => None,
        CommandID::ReadDeviceInfo => match decode_read_device_info(data) {
            Some(r) => Some(Response::ReadDeviceInfo(r)),
            None => None,
        },
        CommandID::Read => {
            if !check_announced_data(data) {
                return None;
            }
            match decode_read(data) {
                Some(r) => Some(Response::Read(r)),
                None => None,
            }
        },
        CommandID::Write => match decode_write(data) {
            Some(r) => Some(Response::Write(r)),
            None => None,
        },
        CommandID::ReadState => match decode_read_state(data) {
            Some((result, ads_state, device_state)) => Some(
                Response::ReadState(
                    ReadStateResponse {
                        result,
                        ads_state: AdsState::from_u16(ads_state),
                        device_state,
                    },
                ),
            ),
            None => None,
        },
        CommandID::WriteControl => match decode_write_control(data) {
            Some(r) => Some(Response::WriteControl(r)),
            None => None,
        },
        CommandID::AddDeviceNotification => match decode_add_device_notification(data) {
            Some(r) => Some(Response::AddDeviceNotification(r)),
            None => None,
        },
        CommandID::DeleteDeviceNotification => match decode_delete_device_notification(data) {
            Some(r) => Some(Response::DeleteDeviceNotification(r)),
            None => None,
        },
        CommandID::DeviceNotification => {
            if !notification_layout_ok(data) {
                return None;
            }
            match decode_device_notification(data) {
                Some(stream) => Some(Response::DeviceNotification(stream)),
                None => None,
            }
        },
        CommandID::ReadWrite => {
            if !check_announced_data(data) {
                return None;
            }
            match decode_read_write(data) {
                Some(r) => Some(Response::ReadWrite(r)),
                None => None,
            }
        },
    }
}

/// The notification handles of the samples of one stamp header, in order.
pub open spec fn stamp_handles(samples: Seq<(u32, u32, Seq<u8>)>) -> Seq<u32> {
    Seq::new(samples.len(), |i: int| samples[i].0)
}

/// The notification handles of all samples of a stream: stamp header by stamp
/// header, sample by sample.
pub open spec fn stream_handles(stamps: Seq<(u64, u32, Seq<(u32, u32, Seq<u8>)>)>) -> Seq<u32>
    decreases stamps.len(),
{
    if stamps.len() == 0 {
        Seq::empty()
    } else {
        stream_handles(stamps.drop_last()) + stamp_handles(stamps.last().2)
    }
}

/// Lists the notification handle of every sample of every stamp header of a
/// stream, in the order of the stream.
pub fn sample_handles(stream: &AdsNotificationStream) -> (handles: Vec<u32>)
    ensures
        handles@ == stream_handles(stream@.2),
{
    let mut handles: Vec<u32> = Vec::new();
    let ghost stamps = stream@.2;
    let mut i: usize = 0;
    while i < stream.ads_stamp_headers.len()
        invariant
            i <= stream.ads_stamp_headers@.len(),
            stamps == stream@.2,
            handles@ == stream_handles(stamps.take(i as int)),
        decreases stream.ads_stamp_headers@.len() - i,
    {
        let header = &stream.ads_stamp_headers[i];
        let ghost before = handles@;
        let ghost samples = stamps[i as int].2;
        let mut j: usize = 0;
        while j < header.notification_samples.len()
            invariant
                j <= header.notification_samples@.len(),
                samples == header@.2,
                handles@ == before + stamp_handles(samples.take(j as int)),
            decreases header.notification_samples@.len() - j,
        {
            handles.push(header.notification_samples[j].notification_handle);
            assert(stamp_handles(samples.take(j as int + 1)) =~= stamp_handles(
                samples.take(j as int),
            ).push(samples[j as int].0));
            j += 1;
        }
        assert(samples.take(j as int) =~= samples);
        assert(stamps.take(i as int + 1).drop_last() =~= stamps.take(i as int));
        i += 1;
    }
    assert(stamps.take(i as int) =~= stamps);
    handles
}

/// What is left of `handles` when every handle outside `known` is taken out.
pub open spec fn registered(handles: Seq<u32>, known: Set<u32>) -> Seq<u32>
    decreases handles.len(),
{
    if handles.len() == 0 {
        Seq::empty()
    } else if known.contains(handles.last()) {
        registered(handles.drop_last(), known).push(handles.last())
    } else {
        registered(handles.drop_last(), known)
    }
}

/// Keeps the handles that the notification table holds a sink for.
pub fn registered_handles<N>(handles: &Vec<u32>, sender_table: &HashMap<u32, N>) -> (kept: Vec<u32>)
    ensures
        kept@ == registered(handles@, sender_table@.dom()),
{
    let mut kept: Vec<u32> = Vec::new();
    let mut i: usize = 0;
    while i < handles.len()
        invariant
            i <= handles@.len(),
            kept@ == registered(handles@.take(i as int), sender_table@.dom()),
        decreases handles@.len() - i,
    {
        assert(handles@.take(i as int + 1).drop_last() =~= handles@.take(i as int));
        if sender_table.contains_key(&handles[i]) {
            kept.push(handles[i]);
        }
        i += 1;
    }
    assert(handles@.take(i as int) =~= handles@);
    kept
}

/// The table after the registrations are entered one after the other; a later
/// registration under the same key replaces an earlier one.
pub open spec fn entered<S>(table: Map<u32, S>, registrations: Seq<(u32, S)>) -> Map<u32, S>
    decreases registrations.len(),
{
    if registrations.len() == 0 {
        table
    } else {
        entered(table, registrations.drop_last()).insert(
            registrations.last().0,
            registrations.last().1,
        )
    }
}

/// Enters sinks into a correlation table.
fn enter<S>(registrations: Vec<(u32, S)>, sender_table: &mut HashMap<u32, S>)
    ensures
        final(sender_table)@ == entered(old(sender_table)@, registrations@),
{
    let ghost all = registrations@;
    for registration in it: registrations
        invariant
            it.seq() == all,
            sender_table@ == entered(old(sender_table)@, all.take(it.index() as int)),
    {
        assert(all.take(it.index() + 1).drop_last() =~= all.take(it.index() as int));
        sender_table.insert(registration.0, registration.1);
    }
    assert(all.take(all.len() as int) =~= all);
}

/// Enters the one-shot sinks of new requests into the general table, each
/// under the invoke id of its request.
pub fn update_sender_table<R>(registrations: Vec<(u32, R)>, sender_table: &mut HashMap<u32, R>)
    ensures
        final(sender_table)@ == entered(old(sender_table)@, registrations@),
{
    enter(registrations, sender_table)
}

/// What the client asks of the notification table.
pub enum SubscriptionChange<N> {
    /// A subscription has begun: `sink` takes the notifications under `handle`.
    Subscribe { handle: u32, sink: N },
    /// The subscription under `handle` has ended.
    Unsubscribe { handle: u32 },
}

impl<N> SubscriptionChange<N> {
    /// The notification handle that the change is about.
    pub open spec fn handle(self) -> u32 {
        match self {
            SubscriptionChange::Subscribe { handle, .. } => handle,
            SubscriptionChange::Unsubscribe { handle } => handle,
        }
    }
}

/// The notification table after the changes are made one after the other, in
/// the order in which the client asked for them: a new subscription replaces
/// the one under its handle, and an ended one leaves the table.
pub open spec fn changed<N>(table: Map<u32, N>, changes: Seq<SubscriptionChange<N>>) -> Map<
    u32,
    N,
>
    decreases changes.len(),
{
    if changes.len() == 0 {
        table
    } else {
        let before = changed(table, changes.drop_last());
        match changes.last() {
            SubscriptionChange::Subscribe { handle, sink } => before.insert(handle, sink),
            SubscriptionChange::Unsubscribe { handle } => before.remove(handle),
        }
    }
}

/// Brings the notification table up to date: enters the sinks of the
/// subscriptions that have begun, each under its notification handle, and
/// takes out those of the subscriptions that have ended.
pub fn update_sender_table_device_notification<N>(
    changes: Vec<SubscriptionChange<N>>,
    sender_table: &mut HashMap<u32, N>,
)
    ensures
        final(sender_table)@ == changed(old(sender_table)@, changes@),
{
    let ghost all = changes@;
    for change in it: changes
        invariant
            it.seq() == all,
            sender_table@ == changed(old(sender_table)@, all.take(it.index() as int)),
    {
        assert(all.take(it.index() + 1).drop_last() =~= all.take(it.index() as int));
        match change {
            SubscriptionChange::Subscribe { handle, sink } => {
                sender_table.insert(handle, sink);
            },
            SubscriptionChange::Unsubscribe { handle } => {
                sender_table.remove(&handle);
            },
        }
    }
    assert(all.take(all.len() as int) =~= all);
}

/// Takes the one-shot sink that waits for the response with invoke id `id`
/// out of the general table and hands it out with the response. Where no sink
/// waits under `id`, the response is dropped and the table stays as it is.
pub fn forward_response<R>(sender_table: &mut HashMap<u32, R>, id: &u32, response: Response) -> (
    delivery: Option<(R, Response)>)
    ensures
        final(sender_table)@ == old(sender_table)@.remove(*id),
        delivery == if old(sender_table)@.contains_key(*id) {
            Some((old(sender_table)@[*id], response))
        } else {
            None
        },
{
    match sender_table.remove(id) {
        Some(sink) => Some((sink, response)),
        None => None,
    }
}

/// Looks up the sink of the subscription with notification handle `id`. The
/// sink stays in the table: it is there for every notification to come.
pub fn forward_ads_notification<'a, N>(sender_table: &'a HashMap<u32, N>, id: &u32) -> (sink:
    Option<&'a N>)
    ensures
        sink == if sender_table@.contains_key(*id) {
            Some(&sender_table@[*id])
        } else {
            None
        },
{
    sender_table.get(id)
}

/// Empties both tables and hands their sinks out: each of them is owed the
/// error that reports the lost connection.
pub fn notify_connection_down<R, N>(
    sender_table: &mut HashMap<u32, R>,
    sender_table_device_notification: &mut HashMap<u32, N>,
) -> (sinks: (HashMap<u32, R>, HashMap<u32, N>))
    ensures
        sinks.0@ == old(sender_table)@,
        sinks.1@ == old(sender_table_device_notification)@,
        final(sender_table)@ == Map::<u32, R>::empty(),
        final(sender_table_device_notification)@ == Map::<u32, N>::empty(),
{
    let mut general: HashMap<u32, R> = HashMap::new();
    let mut notifications: HashMap<u32, N> = HashMap::new();
    std::mem::swap(sender_table, &mut general);
    std::mem::swap(sender_table_device_notification, &mut notifications);
    (general, notifications)
}

/// What the reader owes its sinks after one read.
pub enum Dispatch<R, N> {
    /// Nothing: no sink waits for what arrived, or nothing usable arrived.
    Idle,
    /// The response goes to the one-shot sink, which has left the general table.
    Respond { sink: R, response: Response },
    /// The error goes to the one-shot sink, which has left the general table.
    Fail { sink: R, error: ClientError },
    /// The stream goes to the sink of each handle, once for every time the
    /// handle is listed; all of them are in the notification table.
    Notify { handles: Vec<u32>, stream: AdsNotificationStream },
    /// The connection is lost: every sink of both tables, which are empty
    /// now, gets the error that says so.
    Disconnect { general: HashMap<u32, R>, notifications: HashMap<u32, N> },
}

/// How a frame without an ADS error is routed. A device notification goes to
/// the subscriptions that its samples name, and leaves the general table
/// alone. Any other response goes to the sink that waits under the invoke id
/// of the frame, and takes it out of the general table. A frame that cannot be
/// decoded, or that no sink waits for, is dropped.
pub open spec fn forwarded<R, N>(
    header: AmsHeader,
    general: Map<u32, R>,
    notifications: Map<u32, N>,
    general_after: Map<u32, R>,
    dispatch: Dispatch<R, N>,
) -> bool {
    if !decodable(header) {
        dispatch is Idle && general_after == general
    } else if header.command_id == CommandID::DeviceNotification {
        &&& general_after == general
        &&& dispatch matches Dispatch::Notify { handles, stream }
        &&& stream@ == notification_stream(header.data@)
        &&& handles@ == registered(stream_handles(stream@.2), notifications.dom())
    } else if general.contains_key(header.invoke_id) {
        &&& general_after == general.remove(header.invoke_id)
        &&& dispatch matches Dispatch::Respond { sink, response }
        &&& sink == general[header.invoke_id]
        &&& decodes_to(header, response)
    } else {
        dispatch is Idle && general_after == general
    }
}

/// Routes a frame that carries no ADS error in its header.
pub fn forward_data<R, N>(
    ams_header: &AmsHeader,
    sender_table_general: &mut HashMap<u32, R>,
    sender_table_device_notification: &HashMap<u32, N>,
) -> (dispatch: Dispatch<R, N>)
    ensures
        forwarded(
            *ams_header,
            old(sender_table_general)@,
            sender_table_device_notification@,
            final(sender_table_general)@,
            dispatch,
        ),
{
    match decode_response(ams_header) {
        None => Dispatch::Idle,
        Some(Response::DeviceNotification(stream)) => {
            let all = sample_handles(&stream);
            let handles = registered_handles(&all, sender_table_device_notification);
            Dispatch::Notify { handles, stream }
        },
        Some(response) => {
            if !sender_table_general.contains_key(&ams_header.invoke_id) {
                return Dispatch::Idle;
            }
            match forward_response(sender_table_general, &ams_header.invoke_id, response) {
                Some((sink, response)) => Dispatch::Respond { sink, response },
                None => Dispatch::Idle,
            }
        },
    }
}

/// How a frame is routed whose header carries an ADS error other than the one
/// of a lost connection. The sink that waits under the invoke id of the frame
/// gets the error, by its code, and leaves the general table. A device
/// notification with such an error, and a frame that no sink waits for, is
/// dropped.
pub open spec fn refused<R, N>(
    header: AmsHeader,
    general: Map<u32, R>,
    general_after: Map<u32, R>,
    dispatch: Dispatch<R, N>,
) -> bool {
    if header.command_id != CommandID::DeviceNotification && general.contains_key(
        header.invoke_id,
    ) {
        &&& general_after == general.remove(header.invoke_id)
        &&& dispatch matches Dispatch::Fail { sink, error }
        &&& sink == general[header.invoke_id]
        &&& error == ClientError::Ads(header.ads_error)
    } else {
        dispatch is Idle && general_after == general
    }
}

/// Routes a frame that carries an ADS error in its header.
pub fn forward_error<R, N>(ams_header: &AmsHeader, sender_table_general: &mut HashMap<u32, R>) -> (dispatch:
    Dispatch<R, N>)
    ensures
        refused(
            *ams_header,
            old(sender_table_general)@,
            final(sender_table_general)@,
            dispatch,
        ),
{
    if let CommandID::DeviceNotification = ams_header.command_id {
        return Dispatch::Idle;
    }
    match sender_table_general.remove(&ams_header.invoke_id) {
        Some(sink) => Dispatch::Fail { sink, error: ClientError::Ads(ams_header.ads_error) },
        None => {
            assert(sender_table_general@ =~= old(sender_table_general)@);
            Dispatch::Idle
        },
    }
}

/// The state of the reader: the general table of one-shot sinks by invoke id,
/// and the notification table of durable sinks by notification handle.
pub struct Reader<R, N> {
    pub general: HashMap<u32, R>,
    pub notifications: HashMap<u32, N>,
}

/// Both tables are handed out whole and are empty afterwards.
pub open spec fn disconnected<R, N>(
    general: Map<u32, R>,
    notifications: Map<u32, N>,
    general_after: Map<u32, R>,
    notifications_after: Map<u32, N>,
    dispatch: Dispatch<R, N>,
) -> bool {
    &&& dispatch matches Dispatch::Disconnect { general: g, notifications: n }
    &&& g@ == general
    &&& n@ == notifications
    &&& general_after == Map::<u32, R>::empty()
    &&& notifications_after == Map::<u32, N>::empty()
}

/// What one read leads to, once the new registrations are entered. The end of
/// the transport, and a frame whose header reports a lost connection, empty
/// both tables in favour of their sinks. A frame without error is routed as
/// `forwarded` says, a frame with another error as `refused` says. A read
/// that failed otherwise changes nothing.
pub open spec fn stepped<R, N>(
    general: Map<u32, R>,
    notifications: Map<u32, N>,
    outcome: Result<AmsHeader, ReadError>,
    general_after: Map<u32, R>,
    notifications_after: Map<u32, N>,
    dispatch: Dispatch<R, N>,
) -> bool {
    match outcome {
        Err(ReadError::UnexpectedEof) => disconnected(
            general,
            notifications,
            general_after,
            notifications_after,
            dispatch,
        ),
        Ok(h) if h.ads_error == ERR_PORT_NOT_CONNECTED => disconnected(
            general,
            notifications,
            general_after,
            notifications_after,
            dispatch,
        ),
        Ok(h) if h.ads_error == ERR_NO_ERROR => {
            &&& notifications_after == notifications
            &&& forwarded(h, general, notifications, general_after, dispatch)
        },
        Ok(h) => {
            &&& notifications_after == notifications
            &&& refused(h, general, general_after, dispatch)
        },
        Err(_) => {
            &&& dispatch is Idle
            &&& general_after == general
            &&& notifications_after == notifications
        },
    }
}

impl<R, N> Reader<R, N> {
    /// A reader that no sink waits at.
    pub fn new() -> (reader: Self)
        ensures
            reader.general@ == Map::<u32, R>::empty(),
            reader.notifications@ == Map::<u32, N>::empty(),
    {
        Reader { general: HashMap::new(), notifications: HashMap::new() }
    }

    /// One turn of the reader. The sinks registered since the last turn are
    /// entered first, so that they see what this read brought, and the
    /// subscriptions that the client has ended since then are taken out, so
    /// that they get nothing more; then the outcome of the read decides what
    /// the sinks get.
    pub fn step(
        &mut self,
        outcome: Result<AmsHeader, ReadError>,
        responses: Vec<(u32, R)>,
        subscriptions: Vec<SubscriptionChange<N>>,
    ) -> (dispatch: Dispatch<R, N>)
        ensures
            stepped(
                entered(old(self).general@, responses@),
                changed(old(self).notifications@, subscriptions@),
                outcome,
                final(self).general@,
                final(self).notifications@,
                dispatch,
            ),
    {
        update_sender_table(responses, &mut self.general);
        update_sender_table_device_notification(subscriptions, &mut self.notifications);
        match outcome {
            Err(ReadError::UnexpectedEof) => {
                let (general, notifications) = notify_connection_down(
                    &mut self.general,
                    &mut self.notifications,
                );
                Dispatch::Disconnect { general, notifications }
            },
            Err(_) => Dispatch::Idle,
            Ok(header) => {
                if header.ads_error == ERR_NO_ERROR {
                    forward_data(&header, &mut self.general, &self.notifications)
                } else if header.ads_error == ERR_PORT_NOT_CONNECTED {
                    let (general, notifications) = notify_connection_down(
                        &mut self.general,
                        &mut self.notifications,
                    );
                    Dispatch::Disconnect { general, notifications }
                } else {
                    forward_error(&header, &mut self.general)
                }
            },
        }
    }

    /// Ends the subscription under `handle` on the reader's side: the sink
    /// leaves the notification table. This is what follows when a sink turns
    /// out to be abandoned.
    pub fn drop_subscription(&mut self, handle: u32) -> (sink: Option<N>)
        ensures
            final(self).general@ == old(self).general@,
            final(self).notifications@ == old(self).notifications@.remove(handle),
            sink == if old(self).notifications@.contains_key(handle) {
                Some(old(self).notifications@[handle])
            } else {
                None
            },
    {
        self.notifications.remove(&handle)
    }
}

/// The error that every sink gets when the connection is lost.
pub open spec fn terminal_error() -> ClientError {
    ClientError::Ads(ERR_PORT_NOT_CONNECTED)
}

/// One notification for the subscription under `handle`. Where a sink is
/// registered under it, `notify` is handed the sink and the stream; a sink
/// that takes nothing any more leaves the table. Where none is registered,
/// nothing happens.
pub open spec fn notified_one<
    N,
    M: Fn(&N, Result<&AdsNotificationStream, ClientError>) -> bool,
>(
    notify: &M,
    table: Map<u32, N>,
    handle: u32,
    stream: AdsNotificationStream,
    next: Map<u32, N>,
) -> bool {
    if table.contains_key(handle) {
        exists|delivered: bool| #[trigger]
            call_ensures(*notify, (&table[handle], Ok(&stream)), delivered) && next == if delivered {
                table
            } else {
                table.remove(handle)
            }
    } else {
        next == table
    }
}

/// The notifications for `handles`, one after the other: `tables` are the
/// notification tables before, between and after them.
pub open spec fn notified_all<N, M: Fn(&N, Result<&AdsNotificationStream, ClientError>) -> bool>(
    notify: &M,
    before: Map<u32, N>,
    handles: Seq<u32>,
    stream: AdsNotificationStream,
    after: Map<u32, N>,
) -> bool {
    exists|tables: Seq<Map<u32, N>>|
        #![trigger tables.len()]
        tables.len() == handles.len() + 1 && tables[0] == before && tables.last() == after
            && forall|j: int|
            #![trigger handles[j]]
            0 <= j < handles.len() ==> notified_one(
                notify,
                tables[j],
                handles[j],
                stream,
                tables[j + 1],
            )
}

/// What the sinks get for a dispatch. A response, or the error in its place,
/// is handed to `deliver` with its one-shot sink. A stream is handed to `notify` for each listed handle.
/// After a lost connection every sink of both tables is handed its terminal
/// error: the one-shot sinks to `deliver`, the others to `notify`.
pub open spec fn performed<
    R,
    N,
    D: Fn(R, ClientResult<Response>) -> bool,
    M: Fn(&N, Result<&AdsNotificationStream, ClientError>) -> bool,
>(
    deliver: &D,
    notify: &M,
    before: Map<u32, N>,
    dispatch: Dispatch<R, N>,
    after: Map<u32, N>,
) -> bool {
    match dispatch {
        Dispatch::Idle => after == before,
        Dispatch::Respond { sink, response } => after == before && exists|delivered: bool| #[trigger]
            call_ensures(*deliver, (sink, Ok(response)), delivered),
        Dispatch::Fail { sink, error } => after == before && exists|delivered: bool| #[trigger]
            call_ensures(*deliver, (sink, Err(error)), delivered),
        Dispatch::Notify { handles, stream } => notified_all(
            notify,
            before,
            handles@,
            stream,
            after,
        ),
        Dispatch::Disconnect { general, notifications } => {
            &&& after == before
            &&& forall|id: u32| #[trigger]
                general@.contains_key(id) ==> exists|delivered: bool| #[trigger]
                    call_ensures(*deliver, (general@[id], Err(terminal_error())), delivered)
            &&& forall|handle: u32| #[trigger]
                notifications@.contains_key(handle) ==> exists|delivered: bool| #[trigger]
                    call_ensures(
                        *notify,
                        (&notifications@[handle], Err(terminal_error())),
                        delivered,
                    )
        },
    }
}

/// One turn of the reader with its deliveries: the dispatch of the turn is
/// decided as `stepped` says and performed as `performed` says.
pub open spec fn turned<
    R,
    N,
    D: Fn(R, ClientResult<Response>) -> bool,
    M: Fn(&N, Result<&AdsNotificationStream, ClientError>) -> bool,
>(
    deliver: &D,
    notify: &M,
    general: Map<u32, R>,
    notifications: Map<u32, N>,
    outcome: Result<AmsHeader, ReadError>,
    general_after: Map<u32, R>,
    notifications_after: Map<u32, N>,
) -> bool {
    exists|decided: Map<u32, N>, dispatch: Dispatch<R, N>| #[trigger]
        stepped(general, notifications, outcome, general_after, decided, dispatch) && performed(
            deliver,
            notify,
            decided,
            dispatch,
            notifications_after,
        )
}

/// Lists the keys of a table.
fn keys_of<S>(table: &HashMap<u32, S>) -> (keys: Vec<u32>)
    ensures
        keys@.to_set() == table@.dom(),
        keys@.no_duplicates(),
{
    let mut keys: Vec<u32> = Vec::new();
    let ghost all = table.keys().remaining();
    for key in it: table.keys()
        invariant
            it.seq() == all,
            keys@.len() == it.index(),
            forall|j: int| 0 <= j < keys@.len() ==> keys@[j] == *all[j],
    {
        keys.push(*key);
    }
    assert(keys@ =~= all.unref());
    keys
}

/// Takes every sink out of a table.
fn take_all<S>(table: &mut HashMap<u32, S>) -> (sinks: Vec<(u32, S)>)
    ensures
        final(table)@ == Map::<u32, S>::empty(),
        forall|i: int|
            0 <= i < sinks@.len() ==> old(table)@.contains_key((#[trigger] sinks@[i]).0) && old(
                table,
            )@[sinks@[i].0] == sinks@[i].1,
        forall|k: u32|
            old(table)@.contains_key(k) ==> exists|i: int|
                0 <= i < sinks@.len() && (#[trigger] sinks@[i]).0 == k,
{
    let keys = keys_of(table);
    let ghost before = table@;
    let mut sinks: Vec<(u32, S)> = Vec::new();
    let mut i: usize = 0;
    while i < keys.len()
        invariant
            i <= keys@.len(),
            before == old(table)@,
            keys@.to_set() == before.dom(),
            keys@.no_duplicates(),
            sinks@.len() == i,
            forall|k: u32|
                table@.contains_key(k) <==> exists|j: int| i <= j < keys@.len() && keys@[j] == k,
            forall|k: u32| table@.contains_key(k) ==> table@[k] == before[k],
            forall|j: int|
                0 <= j < i ==> (#[trigger] sinks@[j]).0 == keys@[j] && before[keys@[j]]
                    == sinks@[j].1,
        decreases keys@.len() - i,
    {
        let key = keys[i];
        assert(table@.contains_key(key));
        let ghost now = table@;
        if let Some(sink) = table.remove(&key) {
            sinks.push((key, sink));
        }
        proof {
            assert forall|k: u32| table@.contains_key(k) <==> exists|j: int|
                i + 1 <= j < keys@.len() && keys@[j] == k by {
                if table@.contains_key(k) {
                    let j = choose|j: int| i <= j < keys@.len() && keys@[j] == k;
                    assert(j != i);
                }
                if exists|j: int| i + 1 <= j < keys@.len() && keys@[j] == k {
                    let j = choose|j: int| i + 1 <= j < keys@.len() && keys@[j] == k;
                    assert(keys@[j] != keys@[i as int]);
                    assert(now.contains_key(k));
                }
            }
        }
        i += 1;
    }
    assert(table@ =~= Map::<u32, S>::empty());
    assert forall|k: u32| before.contains_key(k) implies exists|i: int|
        0 <= i < sinks@.len() && (#[trigger] sinks@[i]).0 == k by {
        assert(keys@.to_set().contains(k));
        let j = choose|j: int| 0 <= j < keys@.len() && keys@[j] == k;
        assert(sinks@[j].0 == k);
    }
    assert forall|i: int| 0 <= i < sinks@.len() implies before.contains_key(
        (#[trigger] sinks@[i]).0,
    ) by {
        assert(keys@.to_set().contains(keys@[i]));
    }
    sinks
}

impl<R, N> Reader<R, N> {
    /// Hands the stream to the subscription under each of `handles`, in their
    /// order, and drops the subscriptions that take nothing any more.
    pub fn notify_subscribers<M: Fn(&N, Result<&AdsNotificationStream, ClientError>) -> bool>(
        &mut self,
        handles: &Vec<u32>,
        stream: &AdsNotificationStream,
        notify: &M,
    )
        requires
            forall|sink: &N, message: Result<&AdsNotificationStream, ClientError>|
                call_requires(*notify, (sink, message)),
        ensures
            final(self).general@ == old(self).general@,
            notified_all(
                notify,
                old(self).notifications@,
                handles@,
                *stream,
                final(self).notifications@,
            ),
    {
        let ghost mut tables: Seq<Map<u32, N>> = seq![self.notifications@];
        let mut i: usize = 0;
        while i < handles.len()
            invariant
                i <= handles@.len(),
                forall|sink: &N, message: Result<&AdsNotificationStream, ClientError>|
                    call_requires(*notify, (sink, message)),
                self.general@ == old(self).general@,
                tables.len() == i + 1,
                tables[0] == old(self).notifications@,
                tables.last() == self.notifications@,
                forall|j: int|
                    #![trigger handles@[j]]
                    0 <= j < i ==> notified_one(
                        notify,
                        tables[j],
                        handles@[j],
                        *stream,
                        tables[j + 1],
                    ),
            decreases handles@.len() - i,
        {
            let handle = handles[i];
            let ghost table = self.notifications@;
            let delivered = match forward_ads_notification(&self.notifications, &handle) {
                Some(sink) => notify(sink, Ok(stream)),
                None => true,
            };
            if !delivered {
                let _ = self.drop_subscription(handle);
            }
            proof {
                let before = tables;
                tables = tables.push(self.notifications@);
                assert(notified_one(notify, table, handle, *stream, self.notifications@));
                assert forall|j: int|
                    #![trigger handles@[j]]
                    0 <= j < i + 1 implies notified_one(
                    notify,
                    tables[j],
                    handles@[j],
                    *stream,
                    tables[j + 1],
                ) by {
                    if j < i {
                        assert(tables[j] == before[j]);
                        assert(tables[j + 1] == before[j + 1]);
                    }
                }
            }
            i += 1;
        }
        assert(tables.len() == handles@.len() + 1);
    }

    /// Hands every sink of the two tables of a lost connection its terminal
    /// error.
    fn tell_connection_down<
        D: Fn(R, ClientResult<Response>) -> bool,
        M: Fn(&N, Result<&AdsNotificationStream, ClientError>) -> bool,
    >(general: HashMap<u32, R>, notifications: HashMap<u32, N>, deliver: &D, notify: &M)
        requires
            forall|sink: R, message: ClientResult<Response>| call_requires(*deliver, (sink, message)),
            forall|sink: &N, message: Result<&AdsNotificationStream, ClientError>|
                call_requires(*notify, (sink, message)),
        ensures
            forall|id: u32| #[trigger]
                general@.contains_key(id) ==> exists|delivered: bool| #[trigger]
                    call_ensures(*deliver, (general@[id], Err(terminal_error())), delivered),
            forall|handle: u32| #[trigger]
                notifications@.contains_key(handle) ==> exists|delivered: bool| #[trigger]
                    call_ensures(
                        *notify,
                        (&notifications@[handle], Err(terminal_error())),
                        delivered,
                    ),
    {
        let mut general = general;
        let mut notifications = notifications;
        let ghost lost = general@;
        let ghost unsubscribed = notifications@;
        let mut sinks = take_all(&mut general);
        let ghost all = sinks@;
        while sinks.len() > 0
            invariant
                sinks@.len() <= all.len(),
                sinks@ == all.take(sinks@.len() as int),
                forall|sink: R, message: ClientResult<Response>|
                    call_requires(*deliver, (sink, message)),
                forall|j: int|
                    #![trigger all[j]]
                    sinks@.len() <= j < all.len() ==> exists|delivered: bool| #[trigger]
                        call_ensures(*deliver, (all[j].1, Err(terminal_error())), delivered),
            decreases sinks@.len(),
        {
            let ghost left = sinks@.len() - 1;
            if let Some(entry) = sinks.pop() {
                assert(entry == all[left]);
                let delivered = deliver(entry.1, Err(ClientError::Ads(ERR_PORT_NOT_CONNECTED)));
                assert(call_ensures(*deliver, (all[left].1, Err(terminal_error())), delivered));
            }
            assert(sinks@ =~= all.take(sinks@.len() as int));
        }
        assert forall|id: u32| #[trigger] lost.contains_key(id) implies exists|delivered: bool| #[trigger]
            call_ensures(*deliver, (lost[id], Err(terminal_error())), delivered) by {
            let i = choose|i: int| 0 <= i < all.len() && (#[trigger] all[i]).0 == id;
            assert(all[i].1 == lost[id]);
        }
        let others = take_all(&mut notifications);
        let mut k: usize = 0;
        while k < others.len()
            invariant
                k <= others@.len(),
                forall|sink: &N, message: Result<&AdsNotificationStream, ClientError>|
                    call_requires(*notify, (sink, message)),
                forall|j: int|
                    #![trigger others@[j]]
                    0 <= j < k ==> exists|delivered: bool| #[trigger]
                        call_ensures(*notify, (&others@[j].1, Err(terminal_error())), delivered),
            decreases others@.len() - k,
        {
            let _ = notify(&others[k].1, Err(ClientError::Ads(ERR_PORT_NOT_CONNECTED)));
            k += 1;
        }
        assert forall|handle: u32| #[trigger]
            unsubscribed.contains_key(handle) implies exists|delivered: bool| #[trigger]
            call_ensures(*notify, (&unsubscribed[handle], Err(terminal_error())), delivered) by {
            let i = choose|i: int| 0 <= i < others@.len() && (#[trigger] others@[i]).0 == handle;
            assert(others@[i].1 == unsubscribed[handle]);
        }
    }

    /// Gives the sinks what a dispatch owes them.
    pub fn perform<
        D: Fn(R, ClientResult<Response>) -> bool,
        M: Fn(&N, Result<&AdsNotificationStream, ClientError>) -> bool,
    >(&mut self, dispatch: Dispatch<R, N>, deliver: &D, notify: &M)
        requires
            forall|sink: R, message: ClientResult<Response>| call_requires(*deliver, (sink, message)),
            forall|sink: &N, message: Result<&AdsNotificationStream, ClientError>|
                call_requires(*notify, (sink, message)),
        ensures
            final(self).general@ == old(self).general@,
            performed(
                deliver,
                notify,
                old(self).notifications@,
                dispatch,
                final(self).notifications@,
            ),
    {
        match dispatch {
            Dispatch::Idle => {},
            Dispatch::Respond { sink, response } => {
                let _ = deliver(sink, Ok(response));
            },
            Dispatch::Fail { sink, error } => {
                let _ = deliver(sink, Err(error));
            },
            Dispatch::Notify { handles, stream } => {
                self.notify_subscribers(&handles, &stream, notify);
            },
            Dispatch::Disconnect { general, notifications } => {
                Self::tell_connection_down(general, notifications, deliver, notify);
            },
        }
    }

    /// One turn of the reader with its deliveries: enters the new sinks,
    /// decides what the outcome of the read means, and gives the sinks what
    /// they are owed.
    pub fn turn<
        D: Fn(R, ClientResult<Response>) -> bool,
        M: Fn(&N, Result<&AdsNotificationStream, ClientError>) -> bool,
    >(
        &mut self,
        outcome: Result<AmsHeader, ReadError>,
        responses: Vec<(u32, R)>,
        subscriptions: Vec<SubscriptionChange<N>>,
        deliver: &D,
        notify: &M,
    )
        requires
            forall|sink: R, message: ClientResult<Response>| call_requires(*deliver, (sink, message)),
            forall|sink: &N, message: Result<&AdsNotificationStream, ClientError>|
                call_requires(*notify, (sink, message)),
        ensures
            turned(
                deliver,
                notify,
                entered(old(self).general@, responses@),
                changed(old(self).notifications@, subscriptions@),
                outcome,
                final(self).general@,
                final(self).notifications@,
            ),
    {
        let dispatch = self.step(outcome, responses, subscriptions);
        let ghost decided = self.notifications@;
        self.perform(dispatch, deliver, notify);
        assert(stepped(
            entered(old(self).general@, responses@),
            changed(old(self).notifications@, subscriptions@),
            outcome,
            self.general@,
            decided,
            dispatch,
        ));
    }
}

/// After this outcome of a read the reader has nothing to read from: the
/// transport has ended, and the reader has to wait for the next one.
pub open spec fn spec_awaits_transport(outcome: Result<AmsHeader, ReadError>) -> bool {
    outcome == Err::<AmsHeader, ReadError>(ReadError::UnexpectedEof)
}

/// Tells whether the reader has to wait for a new transport after a read.
pub fn awaits_transport(outcome: &Result<AmsHeader, ReadError>) -> (wait: bool)
    ensures
        wait == spec_awaits_transport(*outcome),
{
    match outcome {
        Err(ReadError::UnexpectedEof) => true,
        _ => false,
    }
}

/// One turn of a running reader: it reads a frame from the transport, takes
/// the sinks that were registered and the subscriptions that began or ended
/// in the meantime, and routes what it read.
/// `wait` tells whether the read found the transport ended.
pub open spec fn ran_once<
    R,
    N,
    F: Fn(usize) -> Result<Vec<u8>, ReadError>,
    G: Fn() -> (Vec<(u32, R)>, Vec<SubscriptionChange<N>>),
    D: Fn(R, ClientResult<Response>) -> bool,
    M: Fn(&N, Result<&AdsNotificationStream, ClientError>) -> bool,
>(
    read_exact: &F,
    registrations: &G,
    deliver: &D,
    notify: &M,
    before: (Map<u32, R>, Map<u32, N>),
    after: (Map<u32, R>, Map<u32, N>),
    wait: bool,
) -> bool {
    exists|
        outcome: Result<AmsHeader, ReadError>,
        registered: (Vec<(u32, R)>, Vec<SubscriptionChange<N>>),
    |
        #![trigger read_outcome(read_exact, outcome), call_ensures(*registrations, (), registered)]
        read_outcome(read_exact, outcome) && call_ensures(*registrations, (), registered) && turned(
            deliver,
            notify,
            entered(before.0, registered.0@),
            changed(before.1, registered.1@),
            outcome,
            after.0,
            after.1,
        ) && wait == spec_awaits_transport(outcome)
}

/// A run of the reader: `tables` are its two tables before, between and
/// after its turns. The run has `turns` turns, none of which found the
/// transport ended; or it is `waiting`, and has stopped earlier after the
/// first turn that did.
pub open spec fn ran<
    R,
    N,
    F: Fn(usize) -> Result<Vec<u8>, ReadError>,
    G: Fn() -> (Vec<(u32, R)>, Vec<SubscriptionChange<N>>),
    D: Fn(R, ClientResult<Response>) -> bool,
    M: Fn(&N, Result<&AdsNotificationStream, ClientError>) -> bool,
>(
    read_exact: &F,
    registrations: &G,
    deliver: &D,
    notify: &M,
    before: (Map<u32, R>, Map<u32, N>),
    turns: nat,
    after: (Map<u32, R>, Map<u32, N>),
    waiting: bool,
) -> bool {
    exists|tables: Seq<(Map<u32, R>, Map<u32, N>)>|
        #![trigger tables.len()]
        1 <= tables.len() <= turns + 1 && tables[0] == before && tables.last() == after && (
        waiting ==> tables.len() >= 2) && (!waiting ==> tables.len() == turns + 1) && forall|
            j: int,
        |
            #![trigger tables[j]]
            0 <= j < tables.len() - 1 ==> ran_once(
                read_exact,
                registrations,
                deliver,
                notify,
                tables[j],
                tables[j + 1],
                waiting && j == tables.len() - 2,
            )
}

/// Runs the reader on the thread that calls it: for `turns` turns, or until
/// a turn finds the transport ended. A turn blocks in `read_exact` until a
/// frame or the end of the transport is there; `registrations` hands over the
/// sinks that were registered since the last turn, so that a response finds
/// its sink even where both came while the read was waiting, and the
/// subscriptions that began or ended since then, in their order. The result
/// tells whether the reader has to wait for a new transport.
pub fn run_reader_thread<
    R,
    N,
    F: Fn(usize) -> Result<Vec<u8>, ReadError>,
    G: Fn() -> (Vec<(u32, R)>, Vec<SubscriptionChange<N>>),
    D: Fn(R, ClientResult<Response>) -> bool,
    M: Fn(&N, Result<&AdsNotificationStream, ClientError>) -> bool,
>(
    reader: &mut Reader<R, N>,
    turns: usize,
    read_exact: &F,
    registrations: &G,
    deliver: &D,
    notify: &M,
) -> (waiting: bool)
    requires
        forall|n: usize| call_requires(*read_exact, (n,)),
        call_requires(*registrations, ()),
        forall|sink: R, message: ClientResult<Response>| call_requires(*deliver, (sink, message)),
        forall|sink: &N, message: Result<&AdsNotificationStream, ClientError>|
            call_requires(*notify, (sink, message)),
    ensures
        ran(
            read_exact,
            registrations,
            deliver,
            notify,
            (old(reader).general@, old(reader).notifications@),
            turns as nat,
            (final(reader).general@, final(reader).notifications@),
            waiting,
        ),
{
    let ghost mut tables: Seq<(Map<u32, R>, Map<u32, N>)> = seq![
        (reader.general@, reader.notifications@),
    ];
    let mut i: usize = 0;
    while i < turns
        invariant
            i <= turns,
            forall|n: usize| call_requires(*read_exact, (n,)),
            call_requires(*registrations, ()),
            forall|sink: R, message: ClientResult<Response>| call_requires(*deliver, (sink, message)),
            forall|sink: &N, message: Result<&AdsNotificationStream, ClientError>|
                call_requires(*notify, (sink, message)),
            tables.len() == i + 1,
            tables[0] == (old(reader).general@, old(reader).notifications@),
            tables.last() == (reader.general@, reader.notifications@),
            forall|j: int|
                #![trigger tables[j]]
                0 <= j < i ==> ran_once(
                    read_exact,
                    registrations,
                    deliver,
                    notify,
                    tables[j],
                    tables[j + 1],
                    false,
                ),
        decreases turns - i,
    {
        let ghost before = (reader.general@, reader.notifications@);
        let outcome = read(read_exact);
        let wait = awaits_transport(&outcome);
        let registered = registrations();
        let ghost seen = registered;
        let (responses, subscriptions) = registered;
        reader.turn(outcome, responses, subscriptions, deliver, notify);
        proof {
            let earlier = tables;
            let after = (reader.general@, reader.notifications@);
            tables = tables.push(after);
            assert(call_ensures(*registrations, (), seen));
            assert(ran_once(read_exact, registrations, deliver, notify, before, after, wait));
            assert forall|j: int|
                #![trigger tables[j]]
                0 <= j < i + 1 implies ran_once(
                read_exact,
                registrations,
                deliver,
                notify,
                tables[j],
                tables[j + 1],
                wait && j == i,
            ) by {
                if j < i {
                    assert(tables[j] == earlier[j]);
                    assert(tables[j + 1] == earlier[j + 1]);
                }
            }
        }
        i += 1;
        if wait {
            assert(tables.len() >= 2);
            return true;
        }
    }
    assert(tables.len() == turns + 1);
    false
}

/// The turn hands the one-shot sink registered under `id` out.
pub open spec fn hands_out<R, N>(
    outcome: Result<AmsHeader, ReadError>,
    dispatch: Dispatch<R, N>,
    id: u32,
) -> bool {
    match dispatch {
        Dispatch::Respond { .. } => outcome matches Ok(h) && h.invoke_id == id,
        Dispatch::Fail { .. } => outcome matches Ok(h) && h.invoke_id == id,
        Dispatch::Disconnect { general, .. } => general@.contains_key(id),
        _ => false,
    }
}

/// A one-shot sink gets at most one message. A turn hands out only sinks that
/// wait in the general table, and a sink that it hands out has left the table
/// when the turn ends.
pub proof fn lemma_handed_out_sink_leaves<R, N>(
    general: Map<u32, R>,
    notifications: Map<u32, N>,
    outcome: Result<AmsHeader, ReadError>,
    general_after: Map<u32, R>,
    notifications_after: Map<u32, N>,
    dispatch: Dispatch<R, N>,
    id: u32,
)
    requires
        stepped(general, notifications, outcome, general_after, notifications_after, dispatch),
        hands_out(outcome, dispatch, id),
    ensures
        general.contains_key(id),
        !general_after.contains_key(id),
{
}

/// A one-shot sink gets at most one message. Where no sink waits under `id`
/// and none is registered under it, a turn hands no sink out for `id`, and
/// none waits under `id` afterwards.
pub proof fn lemma_absent_sink_stays_absent<R, N>(
    general: Map<u32, R>,
    notifications: Map<u32, N>,
    responses: Seq<(u32, R)>,
    outcome: Result<AmsHeader, ReadError>,
    general_after: Map<u32, R>,
    notifications_after: Map<u32, N>,
    dispatch: Dispatch<R, N>,
    id: u32,
)
    requires
        stepped(
            entered(general, responses),
            notifications,
            outcome,
            general_after,
            notifications_after,
            dispatch,
        ),
        !general.contains_key(id),
        forall|i: int| 0 <= i < responses.len() ==> (#[trigger] responses[i]).0 != id,
    ensures
        !hands_out(outcome, dispatch, id),
        !general_after.contains_key(id),
{
    lemma_entered_keys(general, responses, id);
}

/// The keys of a table after registrations: the keys it had, and the
/// registered ones.
pub proof fn lemma_entered_keys<S>(table: Map<u32, S>, registrations: Seq<(u32, S)>, id: u32)
    ensures
        entered(table, registrations).contains_key(id) <==> table.contains_key(id) || exists|
            i: int,
        |
            0 <= i < registrations.len() && (#[trigger] registrations[i]).0 == id,
    decreases registrations.len(),
{
    if registrations.len() > 0 {
        let front = registrations.drop_last();
        lemma_entered_keys(table, front, id);
        if exists|i: int| 0 <= i < front.len() && (#[trigger] front[i]).0 == id {
            let i = choose|i: int| 0 <= i < front.len() && (#[trigger] front[i]).0 == id;
            assert(registrations[i].0 == id);
        }
        if exists|i: int| 0 <= i < registrations.len() && (#[trigger] registrations[i]).0 == id {
            let i = choose|i: int|
                0 <= i < registrations.len() && (#[trigger] registrations[i]).0 == id;
            if i < front.len() {
                assert(front[i].0 == id);
            }
        }
    }
}

/// The handles that `registered` keeps are the known ones among the handles:
/// each as often as it is listed.
pub proof fn lemma_registered_keeps_known(handles: Seq<u32>, known: Set<u32>, handle: u32)
    ensures
        registered(handles, known).contains(handle) <==> handles.contains(handle)
            && known.contains(handle),
    decreases handles.len(),
{
    if handles.len() > 0 {
        let front = handles.drop_last();
        let last = handles.last();
        lemma_registered_keeps_known(front, known, handle);
        let kept = registered(front, known);
        if front.contains(handle) {
            let i = choose|i: int| 0 <= i < front.len() && front[i] == handle;
            assert(handles[i] == handle);
        }
        if handles.contains(handle) {
            let i = choose|i: int| 0 <= i < handles.len() && handles[i] == handle;
            if i < front.len() {
                assert(front[i] == handle);
            }
        }
        if known.contains(last) {
            assert(kept.push(last).last() == last);
            assert(kept.push(last)[kept.len() as int] == last);
            if kept.contains(handle) {
                let i = choose|i: int| 0 <= i < kept.len() && kept[i] == handle;
                assert(kept.push(last)[i] == handle);
            }
            if kept.push(last).contains(handle) {
                let i = choose|i: int| 0 <= i < kept.push(last).len() && kept.push(last)[i] == handle;
                if i < kept.len() {
                    assert(kept[i] == handle);
                }
            }
        }
    }
}

/// A subscription gets every notification that names it. Where a frame
/// without error holds a notification stream with a sample for `handle`, and
/// a sink is registered under `handle`, the turn lists `handle` among the
/// sinks that the stream goes to, and the sink stays registered.
pub proof fn lemma_subscription_is_notified<R, N>(
    general: Map<u32, R>,
    notifications: Map<u32, N>,
    header: AmsHeader,
    general_after: Map<u32, R>,
    notifications_after: Map<u32, N>,
    dispatch: Dispatch<R, N>,
    handle: u32,
)
    requires
        stepped(
            general,
            notifications,
            Ok(header),
            general_after,
            notifications_after,
            dispatch,
        ),
        header.ads_error == ERR_NO_ERROR,
        header.command_id == CommandID::DeviceNotification,
        decodable(header),
        stream_handles(notification_stream(header.data@).2).contains(handle),
        notifications.contains_key(handle),
    ensures
        dispatch matches Dispatch::Notify { handles, stream } && handles@.contains(handle)
            && stream@ == notification_stream(header.data@),
        notifications_after == notifications,
        general_after == general,
{
    let all = stream_handles(notification_stream(header.data@).2);
    lemma_registered_keeps_known(all, notifications.dom(), handle);
}

/// A notification for a handle that no sink is registered under goes to
/// nobody under that handle.
pub proof fn lemma_unknown_handle_is_dropped<R, N>(
    general: Map<u32, R>,
    notifications: Map<u32, N>,
    outcome: Result<AmsHeader, ReadError>,
    general_after: Map<u32, R>,
    notifications_after: Map<u32, N>,
    dispatch: Dispatch<R, N>,
    handle: u32,
)
    requires
        stepped(general, notifications, outcome, general_after, notifications_after, dispatch),
        !notifications.contains_key(handle),
    ensures
        dispatch matches Dispatch::Notify { handles, .. } ==> !handles@.contains(handle),
{
    if let Dispatch::Notify { handles, stream } = dispatch {
        lemma_registered_keeps_known(stream_handles(stream@.2), notifications.dom(), handle);
    }
}

/// When the transport ends, every sink gets the terminal error: the sinks
/// registered before this turn and those registered with it are all handed
/// out, and none is left in the tables.
pub proof fn lemma_disconnect_reaches_every_sink<R, N>(
    general: Map<u32, R>,
    notifications: Map<u32, N>,
    responses: Seq<(u32, R)>,
    subscriptions: Seq<SubscriptionChange<N>>,
    general_after: Map<u32, R>,
    notifications_after: Map<u32, N>,
    dispatch: Dispatch<R, N>,
)
    requires
        stepped(
            entered(general, responses),
            changed(notifications, subscriptions),
            Err(ReadError::UnexpectedEof),
            general_after,
            notifications_after,
            dispatch,
        ),
    ensures
        dispatch matches Dispatch::Disconnect { general: g, notifications: n } && (forall|id: u32|
            general.contains_key(id) ==> #[trigger] g@.contains_key(id)) && (forall|i: int|
            0 <= i < responses.len() ==> g@.contains_key((#[trigger] responses[i]).0)) && n@
            == changed(notifications, subscriptions),
        general_after == Map::<u32, R>::empty(),
        notifications_after == Map::<u32, N>::empty(),
{
    assert forall|id: u32| general.contains_key(id) implies #[trigger] entered(
        general,
        responses,
    ).contains_key(id) by {
        lemma_entered_keys(general, responses, id);
    }
    assert forall|i: int| 0 <= i < responses.len() implies entered(general, responses).contains_key(
        (#[trigger] responses[i]).0,
    ) by {
        lemma_entered_keys(general, responses, responses[i].0);
    }
}

/// Framing round trip. The frame of an AMS header announces the length of the
/// header in its prefix and holds the header behind the prefix; the header
/// starts with the two addresses and decodes to the fields that it was built
/// from.
pub proof fn lemma_frame_round_trip(
    target: AmsAddress,
    source: AmsAddress,
    command: CommandID,
    state_flags: u16,
    ads_error: u32,
    invoke_id: u32,
    data: Seq<u8>,
)
    requires
        data.len() + 32 <= u32::MAX,
    ensures
        ({
            let header = ams_header_bytes(
                target,
                source,
                command.as_u16(),
                state_flags,
                ads_error,
                invoke_id,
                data,
            );
            let frame = ams_tcp_frame(header);
            &&& header.len() == 32 + data.len()
            &&& frame.len() == 6 + header.len()
            &&& spec_frame_length(frame.subrange(0, 6)) == Some(header.len() as u32)
            &&& frame.subrange(6, frame.len() as int) == header
            &&& header.subrange(0, 8) == address_bytes(target)
            &&& header.subrange(8, 16) == address_bytes(source)
            &&& header_fields(header) == Some((command.as_u16(), ads_error, invoke_id, data))
            &&& CommandID::from_u16(le16_at(header, 16)) == command
            &&& le16_at(header, 18) == state_flags
        }),
{
    lemma_auto_spec_u16_to_from_le_bytes();
    lemma_auto_spec_u32_to_from_le_bytes();
    let header = ams_header_bytes(
        target,
        source,
        command.as_u16(),
        state_flags,
        ads_error,
        invoke_id,
        data,
    );
    let frame = ams_tcp_frame(header);
    assert(address_bytes(target).len() == 8);
    assert(address_bytes(source).len() == 8);
    assert(header.len() == 32 + data.len());
    assert(header.subrange(0, 8) =~= address_bytes(target));
    assert(header.subrange(8, 16) =~= address_bytes(source));
    assert(header.subrange(16, 18) =~= spec_u16_to_le_bytes(command.as_u16()));
    assert(header.subrange(18, 20) =~= spec_u16_to_le_bytes(state_flags));
    assert(header.subrange(20, 24) =~= spec_u32_to_le_bytes(data.len() as u32));
    assert(header.subrange(24, 28) =~= spec_u32_to_le_bytes(ads_error));
    assert(header.subrange(28, 32) =~= spec_u32_to_le_bytes(invoke_id));
    assert(header.subrange(32, 32 + data.len() as int) =~= data);
    assert(frame.subrange(0, 6).subrange(2, 6) =~= spec_u32_to_le_bytes(header.len() as u32));
    assert(frame.subrange(6, frame.len() as int) =~= header);
}

/// Framing round trip for requests: what `frame_of` builds is read back as
/// the command, the invoke id and the data section of the request, without
/// an error code and with the state flags of a request.
pub proof fn lemma_request_frame_round_trip(
    target: AmsAddress,
    source: AmsAddress,
    invoke_id: u32,
    request: Request,
)
    requires
        fits_frame(request),
    ensures
        ({
            let frame = frame_of(target, source, invoke_id, request);
            let data = request_data(request);
            let payload = frame.subrange(6, frame.len() as int);
            &&& spec_frame_length(frame.subrange(0, 6)) == Some(payload.len() as u32)
            &&& payload.len() == 32 + data.len()
            &&& header_fields(payload) == Some(
                (request.command_id().as_u16(), ERR_NO_ERROR, invoke_id, data),
            )
            &&& CommandID::from_u16(le16_at(payload, 16)) == request.command_id()
            &&& le16_at(payload, 18) == REQUEST_STATE_FLAGS
        }),
{
    lemma_auto_spec_u16_to_from_le_bytes();
    lemma_auto_spec_u32_to_from_le_bytes();
    let data = request_data(request);
    assert(data.len() <= request_body_len(request) + 40);
    lemma_frame_round_trip(
        target,
        source,
        request.command_id(),
        REQUEST_STATE_FLAGS,
        ERR_NO_ERROR,
        invoke_id,
        data,
    );
}

/// While the stream goes to the subscriptions under `handles`, a
/// subscription under another handle stays as it is.
proof fn lemma_untouched_subscription_stays<
    N,
    M: Fn(&N, Result<&AdsNotificationStream, ClientError>) -> bool,
>(
    notify: &M,
    tables: Seq<Map<u32, N>>,
    handles: Seq<u32>,
    stream: AdsNotificationStream,
    handle: u32,
    i: int,
)
    requires
        tables.len() == handles.len() + 1,
        forall|j: int|
            #![trigger handles[j]]
            0 <= j < handles.len() ==> notified_one(
                notify,
                tables[j],
                handles[j],
                stream,
                tables[j + 1],
            ),
        0 <= i <= handles.len(),
        forall|j: int| 0 <= j < i ==> handles[j] != handle,
        tables[0].contains_key(handle),
    ensures
        tables[i].contains_key(handle),
        tables[i][handle] == tables[0][handle],
    decreases i,
{
    if i > 0 {
        lemma_untouched_subscription_stays(notify, tables, handles, stream, handle, i - 1);
        assert(handles[i - 1] != handle);
        assert(notified_one(notify, tables[i - 1], handles[i - 1], stream, tables[i]));
    }
}

/// Notification persistence. Where a turn reads a notification stream with a
/// sample for `handle`, and a sink is registered under `handle`, the stream
/// of the frame is handed to `notify` for that sink.
pub proof fn lemma_subscriber_gets_the_stream<
    R,
    N,
    D: Fn(R, ClientResult<Response>) -> bool,
    M: Fn(&N, Result<&AdsNotificationStream, ClientError>) -> bool,
>(
    deliver: &D,
    notify: &M,
    general: Map<u32, R>,
    notifications: Map<u32, N>,
    header: AmsHeader,
    general_after: Map<u32, R>,
    notifications_after: Map<u32, N>,
    handle: u32,
)
    requires
        turned(
            deliver,
            notify,
            general,
            notifications,
            Ok(header),
            general_after,
            notifications_after,
        ),
        header.ads_error == ERR_NO_ERROR,
        header.command_id == CommandID::DeviceNotification,
        decodable(header),
        stream_handles(notification_stream(header.data@).2).contains(handle),
        notifications.contains_key(handle),
    ensures
        general_after == general,
        exists|stream: AdsNotificationStream, delivered: bool|
            stream@ == notification_stream(header.data@) && #[trigger] call_ensures(
                *notify,
                (&notifications[handle], Ok(&stream)),
                delivered,
            ),
{
    let (decided, dispatch) = choose|decided: Map<u32, N>, dispatch: Dispatch<R, N>| #[trigger]
        stepped(general, notifications, Ok(header), general_after, decided, dispatch) && performed(
            deliver,
            notify,
            decided,
            dispatch,
            notifications_after,
        );
    lemma_subscription_is_notified(
        general,
        notifications,
        header,
        general_after,
        decided,
        dispatch,
        handle,
    );
    if let Dispatch::Notify { handles, stream } = dispatch {
        let tables = choose|tables: Seq<Map<u32, N>>|
            #![trigger tables.len()]
            tables.len() == handles@.len() + 1 && tables[0] == decided && tables.last()
                == notifications_after && forall|j: int|
                #![trigger handles@[j]]
                0 <= j < handles@.len() ==> notified_one(
                    notify,
                    tables[j],
                    handles@[j],
                    stream,
                    tables[j + 1],
                );
        let first = handles@.index_of_first(handle).unwrap();
        handles@.index_of_first_ensures(handle);
        lemma_untouched_subscription_stays(notify, tables, handles@, stream, handle, first);
        assert(handles@[first] == handle);
        assert(notified_one(notify, tables[first], handles@[first], stream, tables[first + 1]));
    }
}

/// Disconnect fan-out. A turn that finds the transport ended hands every sink
/// its terminal error: the sinks that were registered before the turn and
/// those registered with it. None is left in the tables.
pub proof fn lemma_lost_connection_is_told<
    R,
    N,
    D: Fn(R, ClientResult<Response>) -> bool,
    M: Fn(&N, Result<&AdsNotificationStream, ClientError>) -> bool,
>(
    deliver: &D,
    notify: &M,
    general: Map<u32, R>,
    notifications: Map<u32, N>,
    general_after: Map<u32, R>,
    notifications_after: Map<u32, N>,
)
    requires
        turned(
            deliver,
            notify,
            general,
            notifications,
            Err(ReadError::UnexpectedEof),
            general_after,
            notifications_after,
        ),
    ensures
        general_after == Map::<u32, R>::empty(),
        notifications_after == Map::<u32, N>::empty(),
        forall|id: u32| #[trigger]
            general.contains_key(id) ==> exists|delivered: bool| #[trigger]
                call_ensures(*deliver, (general[id], Err(terminal_error())), delivered),
        forall|handle: u32| #[trigger]
            notifications.contains_key(handle) ==> exists|delivered: bool| #[trigger]
                call_ensures(*notify, (&notifications[handle], Err(terminal_error())), delivered),
{
    let (decided, dispatch) = choose|decided: Map<u32, N>, dispatch: Dispatch<R, N>| #[trigger]
        stepped(
            general,
            notifications,
            Err(ReadError::UnexpectedEof),
            general_after,
            decided,
            dispatch,
        ) && performed(deliver, notify, decided, dispatch, notifications_after);
    if let Dispatch::Disconnect { general: lost, notifications: unsubscribed } = dispatch {
        assert forall|id: u32| #[trigger] general.contains_key(id) implies exists|delivered: bool| #[trigger]
            call_ensures(*deliver, (general[id], Err(terminal_error())), delivered) by {
            assert(lost@.contains_key(id));
        }
        assert forall|handle: u32| #[trigger]
            notifications.contains_key(handle) implies exists|delivered: bool| #[trigger]
            call_ensures(*notify, (&notifications[handle], Err(terminal_error())), delivered) by {
            assert(unsubscribed@.contains_key(handle));
        }
    }
}

/// At-most-once delivery. In a turn that brings a response, `deliver` is
/// handed the sink that waits under the invoke id of the response, and that
/// sink has left the general table when the turn ends.
pub proof fn lemma_response_is_delivered_once<
    R,
    N,
    D: Fn(R, ClientResult<Response>) -> bool,
    M: Fn(&N, Result<&AdsNotificationStream, ClientError>) -> bool,
>(
    deliver: &D,
    notify: &M,
    general: Map<u32, R>,
    notifications: Map<u32, N>,
    header: AmsHeader,
    general_after: Map<u32, R>,
    notifications_after: Map<u32, N>,
)
    requires
        turned(
            deliver,
            notify,
            general,
            notifications,
            Ok(header),
            general_after,
            notifications_after,
        ),
        header.ads_error == ERR_NO_ERROR,
        header.command_id != CommandID::DeviceNotification,
        decodable(header),
        general.contains_key(header.invoke_id),
    ensures
        general_after == general.remove(header.invoke_id),
        notifications_after == notifications,
        exists|response: Response, delivered: bool|
            decodes_to(header, response) && #[trigger] call_ensures(
                *deliver,
                (general[header.invoke_id], Ok(response)),
                delivered,
            ),
{
}

/// A protocol error reaches the caller. In a turn that brings a frame whose
/// header carries an ADS error other than the one of a lost connection,
/// `deliver` is handed the sink that waits under the invoke id of the frame
/// together with that error, the sink has left the general table when the
/// turn ends, and no other sink is touched.
pub proof fn lemma_error_is_delivered_once<
    R,
    N,
    D: Fn(R, ClientResult<Response>) -> bool,
    M: Fn(&N, Result<&AdsNotificationStream, ClientError>) -> bool,
>(
    deliver: &D,
    notify: &M,
    general: Map<u32, R>,
    notifications: Map<u32, N>,
    header: AmsHeader,
    general_after: Map<u32, R>,
    notifications_after: Map<u32, N>,
)
    requires
        turned(
            deliver,
            notify,
            general,
            notifications,
            Ok(header),
            general_after,
            notifications_after,
        ),
        header.ads_error != ERR_NO_ERROR,
        header.ads_error != ERR_PORT_NOT_CONNECTED,
        header.command_id != CommandID::DeviceNotification,
        general.contains_key(header.invoke_id),
    ensures
        general_after == general.remove(header.invoke_id),
        notifications_after == notifications,
        exists|delivered: bool| #[trigger]
            call_ensures(
                *deliver,
                (general[header.invoke_id], Err(ClientError::Ads(header.ads_error))),
                delivered,
            ),
{
}

/// A subscription that no change is about stays as it was.
pub proof fn lemma_unchanged_subscription_stays<N>(
    table: Map<u32, N>,
    changes: Seq<SubscriptionChange<N>>,
    handle: u32,
)
    requires
        forall|j: int| 0 <= j < changes.len() ==> (#[trigger] changes[j]).handle() != handle,
    ensures
        changed(table, changes).contains_key(handle) == table.contains_key(handle),
        table.contains_key(handle) ==> changed(table, changes)[handle] == table[handle],
    decreases changes.len(),
{
    if changes.len() > 0 {
        let front = changes.drop_last();
        assert forall|j: int| 0 <= j < front.len() implies (#[trigger] front[j]).handle()
            != handle by {
            assert(front[j] == changes[j]);
        }
        lemma_unchanged_subscription_stays(table, front, handle);
        assert(changes[changes.len() - 1].handle() != handle);
    }
}

/// A subscription that has begun, and that no later change is about, is in
/// the table with its sink.
pub proof fn lemma_begun_subscription_is_entered<N>(
    table: Map<u32, N>,
    changes: Seq<SubscriptionChange<N>>,
    i: int,
)
    requires
        0 <= i < changes.len(),
        changes[i] is Subscribe,
        forall|j: int|
            i < j < changes.len() ==> (#[trigger] changes[j]).handle() != changes[i].handle(),
    ensures
        changed(table, changes).contains_key(changes[i].handle()),
        changed(table, changes)[changes[i].handle()] == changes[i]->sink,
    decreases changes.len(),
{
    if i < changes.len() - 1 {
        let front = changes.drop_last();
        assert(front[i] == changes[i]);
        assert forall|j: int| i < j < front.len() implies (#[trigger] front[j]).handle()
            != front[i].handle() by {
            assert(front[j] == changes[j]);
        }
        lemma_begun_subscription_is_entered(table, front, i);
        assert(changes[changes.len() - 1].handle() != changes[i].handle());
    }
}

/// A subscription that has ended, and that has not begun anew since, is not
/// in the table.
pub proof fn lemma_ended_subscription_is_gone<N>(
    table: Map<u32, N>,
    changes: Seq<SubscriptionChange<N>>,
    i: int,
)
    requires
        0 <= i < changes.len(),
        changes[i] is Unsubscribe,
        forall|j: int|
            i < j < changes.len() && (#[trigger] changes[j]).handle() == changes[i].handle()
                ==> changes[j] is Unsubscribe,
    ensures
        !changed(table, changes).contains_key(changes[i].handle()),
    decreases changes.len(),
{
    if i < changes.len() - 1 {
        let front = changes.drop_last();
        assert(front[i] == changes[i]);
        assert forall|j: int|
            i < j < front.len() && (#[trigger] front[j]).handle()
                == front[i].handle() implies front[j] is Unsubscribe by {
            assert(front[j] == changes[j]);
        }
        lemma_ended_subscription_is_gone(table, front, i);
        let last = changes[changes.len() - 1];
        assert(last.handle() == changes[i].handle() ==> last is Unsubscribe);
    }
}

/// While a stream goes to subscriptions, no subscription comes into being.
proof fn lemma_notifying_adds_no_subscription<
    N,
    M: Fn(&N, Result<&AdsNotificationStream, ClientError>) -> bool,
>(
    notify: &M,
    tables: Seq<Map<u32, N>>,
    handles: Seq<u32>,
    stream: AdsNotificationStream,
    handle: u32,
    i: int,
)
    requires
        tables.len() == handles.len() + 1,
        forall|j: int|
            #![trigger handles[j]]
            0 <= j < handles.len() ==> notified_one(
                notify,
                tables[j],
                handles[j],
                stream,
                tables[j + 1],
            ),
        0 <= i <= handles.len(),
        !tables[0].contains_key(handle),
    ensures
        !tables[i].contains_key(handle),
    decreases i,
{
    if i > 0 {
        lemma_notifying_adds_no_subscription(notify, tables, handles, stream, handle, i - 1);
        assert(notified_one(notify, tables[i - 1], handles[i - 1], stream, tables[i]));
    }
}

/// Notifications end with the subscription. Where the client has ended a
/// subscription, and has not begun one under its handle since, the turn that
/// takes note of it hands no stream to a sink under the handle, whatever it
/// reads, and no sink is registered under the handle when the turn ends:
/// later turns hand it nothing either, until a subscription begins under the
/// handle anew.
pub proof fn lemma_unsubscribed_gets_nothing<
    R,
    N,
    D: Fn(R, ClientResult<Response>) -> bool,
    M: Fn(&N, Result<&AdsNotificationStream, ClientError>) -> bool,
>(
    deliver: &D,
    notify: &M,
    general: Map<u32, R>,
    notifications: Map<u32, N>,
    changes: Seq<SubscriptionChange<N>>,
    i: int,
    outcome: Result<AmsHeader, ReadError>,
    general_after: Map<u32, R>,
    notifications_after: Map<u32, N>,
)
    requires
        0 <= i < changes.len(),
        changes[i] is Unsubscribe,
        forall|j: int|
            i < j < changes.len() && (#[trigger] changes[j]).handle() == changes[i].handle()
                ==> changes[j] is Unsubscribe,
        turned(
            deliver,
            notify,
            general,
            changed(notifications, changes),
            outcome,
            general_after,
            notifications_after,
        ),
    ensures
        !changed(notifications, changes).contains_key(changes[i].handle()),
        !notifications_after.contains_key(changes[i].handle()),
        forall|decided: Map<u32, N>, dispatch: Dispatch<R, N>| #[trigger]
            stepped(
                general,
                changed(notifications, changes),
                outcome,
                general_after,
                decided,
                dispatch,
            ) ==> (dispatch matches Dispatch::Notify { handles, .. } ==> !handles@.contains(
                changes[i].handle(),
            )),
{
    let handle = changes[i].handle();
    let before = changed(notifications, changes);
    lemma_ended_subscription_is_gone(notifications, changes, i);
    let (decided, dispatch) = choose|decided: Map<u32, N>, dispatch: Dispatch<R, N>| #[trigger]
        stepped(general, before, outcome, general_after, decided, dispatch) && performed(
            deliver,
            notify,
            decided,
            dispatch,
            notifications_after,
        );
    assert(!decided.contains_key(handle));
    if let Dispatch::Notify { handles, stream } = dispatch {
        let tables = choose|tables: Seq<Map<u32, N>>|
            #![trigger tables.len()]
            tables.len() == handles@.len() + 1 && tables[0] == decided && tables.last()
                == notifications_after && forall|j: int|
                #![trigger handles@[j]]
                0 <= j < handles@.len() ==> notified_one(
                    notify,
                    tables[j],
                    handles@[j],
                    stream,
                    tables[j + 1],
                );
        lemma_notifying_adds_no_subscription(
            notify,
            tables,
            handles@,
            stream,
            handle,
            handles@.len() as int,
        );
    }
    assert forall|decided: Map<u32, N>, dispatch: Dispatch<R, N>| #[trigger]
        stepped(general, before, outcome, general_after, decided, dispatch) implies (
    dispatch matches Dispatch::Notify { handles, .. } ==> !handles@.contains(handle)) by {
        lemma_unknown_handle_is_dropped(
            general,
            before,
            outcome,
            general_after,
            decided,
            dispatch,
            handle,
        );
    }
}

} // verus!
