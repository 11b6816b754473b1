//! The facade of the client: it turns operations into exchanges of one
//! request and one response each, keeps the invoke id and the handle caches,
//! and notices a lost connection.
//!
//! The facade does no I/O. An operation that needs the controller takes a
//! `link`: a function that puts a frame on the wire under an invoke id and
//! comes back with what the sink registered under that id received. The
//! contracts say which frames are handed to the link, and what the operation
//! makes of whatever the link answers. A link is one call of `exchange_frame`,
//! which sets the order of its steps: the sink is registered, then the frame
//! is written, then the sink is waited on.
use crate::codec::encode_request;
use crate::codec::fits_frame;
use crate::codec::frame_of;
use crate::codec::le32_at;
use crate::codec::read_u32_le;
use crate::codec::request_fits;
use crate::error::ADS_ERR_CLIENT_ERROR;
use crate::error::ADS_ERR_CLIENT_PORT_NOT_OPEN;
use crate::error::ADS_ERR_DEVICE_SYMBOL_NOT_FOUND;
use crate::error::ClientError;
use crate::error::ClientResult;
use crate::handle_cache::HandleCache;
use crate::proto::AddDeviceNotificationRequest;
use crate::proto::AddDeviceNotificationResponse;
use crate::proto::AdsNotificationStream;
use crate::proto::AdsState;
use crate::proto::AdsTransMode;
use crate::proto::AmsAddress;
use crate::proto::AmsHeader;
use crate::proto::DeleteDeviceNotificationRequest;
use crate::proto::DeleteDeviceNotificationResponse;
use crate::proto::ReadDeviceInfoResponse;
use crate::proto::ReadRequest;
use crate::proto::ReadResponse;
use crate::proto::ReadStateResponse;
use crate::proto::ReadWriteRequest;
use crate::proto::ReadWriteResponse;
use crate::proto::Request;
use crate::proto::Response;
use crate::proto::WriteControlResponse;
use crate::proto::WriteRequest;
use crate::proto::WriteResponse;
use crate::reader::changed;
use crate::reader::Dispatch;
use crate::reader::lemma_unsubscribed_gets_nothing;
use crate::reader::ReadError;
use crate::reader::stepped;
use crate::reader::SubscriptionChange;
use crate::reader::turned;
use crate::request_factory::get_add_device_notification;
use crate::request_factory::get_delete_device_notification;
use crate::request_factory::get_read_request;
use crate::request_factory::get_read_write_request;
use crate::request_factory::get_release_handle_request;
use crate::request_factory::GET_SYMHANDLE_BY_NAME;
use crate::request_factory::get_var_handle_request;
use crate::request_factory::get_write_control_request;
use crate::request_factory::get_write_request;
use crate::request_factory::READ_WRITE_SYMVAL_BY_HANDLE;
use crate::request_factory::RELEASE_SYMHANDLE;
use vstd::bytes::spec_u32_to_le_bytes;
use vstd::prelude::*;
use vstd::utf8::encode_utf8;

verus! {

/// UDP port of the ADS discovery service.
pub const ADS_UDP_SERVER_PORT: u16 = 48899;

/// TCP port of the ADS service.
pub const ADS_TCP_SERVER_PORT: u16 = 48898;

/// TCP port of the secured ADS service.
pub const ADS_SECURE_TCP_SERVER_PORT: u16 = 8016;

/// The invoke id that follows `id`. After the largest id the count starts
/// again at 0.
pub open spec fn next_invoke_id(id: u32) -> u32 {
    if id == u32::MAX {
        0
    } else {
        (id + 1) as u32
    }
}

/// The state of a client.
pub struct Client {
    /// The IPv4 address of the controller; without one the client talks to
    /// the router of its own machine.
    pub route: Option<[u8; 4]>,
    pub ams_targed_address: AmsAddress,
    pub ams_source_address: AmsAddress,
    /// Whether a transport is open.
    pub connected: bool,
    /// The invoke id of the last request.
    pub invoke_id: u32,
    /// Whether the reader runs.
    pub thread_started: bool,
    /// Handles of variables, by name.
    pub handle_list: HandleCache,
    /// Notification handles of subscriptions, by variable name.
    pub notification_handle_list: HandleCache,
}

/// The state of a client as a mathematical value.
#[verifier::ext_equal]
pub struct ClientView {
    pub route: Option<[u8; 4]>,
    pub target: AmsAddress,
    pub source: AmsAddress,
    pub connected: bool,
    pub invoke_id: u32,
    pub thread_started: bool,
    pub handles: Map<Seq<char>, u32>,
    pub notification_handles: Map<Seq<char>, u32>,
}

impl ClientView {
    /// The client can exchange frames: the reader runs and a transport is open.
    pub open spec fn ready(self) -> bool {
        self.thread_started && self.connected
    }

    /// The state after an invoke id was taken for a new request.
    pub open spec fn advanced(self) -> ClientView {
        ClientView { invoke_id: next_invoke_id(self.invoke_id), ..self }
    }

    /// The state after the connection was found lost: no transport, and both
    /// caches empty, since the handles died with the connection.
    pub open spec fn dropped(self) -> ClientView {
        ClientView {
            connected: false,
            handles: Map::empty(),
            notification_handles: Map::empty(),
            ..self
        }
    }

    /// The state after an exchange failed with `error`: an error after which
    /// the transport is gone drops the connection, any other error changes
    /// nothing.
    pub open spec fn failed(self, error: ClientError) -> ClientView {
        if error.loses_connection() {
            self.dropped()
        } else {
            self
        }
    }

    /// The state after `reply` was looked at: an error is taken note of, a
    /// response changes nothing.
    pub open spec fn settled(self, reply: ClientResult<Response>) -> ClientView {
        match reply {
            Err(e) => self.failed(e),
            Ok(_) => self,
        }
    }
}

/// A frame ready to be sent, and the invoke id that its response will carry.
/// A sink for the response has to be registered under the invoke id before
/// the frame goes out.
#[derive(Debug, Clone, PartialEq, Eq)]
pub struct Outgoing {
    pub invoke_id: u32,
    pub frame: Vec<u8>,
}

/// What `new_tcp_ams_request_header` makes of a request, in every state of
/// the client: the next invoke id is taken, and the frame of the request is
/// built under it, from the client to its target. Only a request that fits
/// no frame gets none.
pub open spec fn prepared(
    pre: ClientView,
    request: Request,
    post: ClientView,
    outgoing: ClientResult<Outgoing>,
) -> bool {
    &&& post == pre.advanced()
    &&& if !fits_frame(request) {
        outgoing == Err::<Outgoing, ClientError>(ClientError::RequestTooLarge)
    } else {
        outgoing matches Ok(out) && out.invoke_id == post.invoke_id && out.frame@ == frame_of(
            pre.target,
            pre.source,
            post.invoke_id,
            request,
        )
    }
}

/// The error that stops a request before anything is sent: without a running
/// reader, without a transport, and for a request that fits no frame, in this
/// order.
pub open spec fn refusal(pre: ClientView, request: Request) -> Option<ClientError> {
    if !pre.thread_started {
        Some(ClientError::Ads(ADS_ERR_CLIENT_ERROR))
    } else if !pre.connected {
        Some(ClientError::Ads(ADS_ERR_CLIENT_PORT_NOT_OPEN))
    } else if !fits_frame(request) {
        Some(ClientError::RequestTooLarge)
    } else {
        None
    }
}

/// The sending of one frame. First `register` is handed the invoke id: it
/// registers a sink for the response under the id and answers with the
/// receiving end of the sink. Only then, and only where that succeeded,
/// `write` is handed the frame. The result is the receiving end, or the error
/// of the step that failed.
pub open spec fn frame_sent<X, G: Fn(u32) -> ClientResult<X>, W: Fn(Vec<u8>) -> ClientResult<()>>(
    register: &G,
    write: &W,
    invoke_id: u32,
    frame: Seq<u8>,
    receiver: ClientResult<X>,
) -> bool {
    exists|registered: ClientResult<X>| #[trigger]
        call_ensures(*register, (invoke_id,), registered) && match registered {
            Err(e) => receiver == Err::<X, ClientError>(e),
            Ok(rx) => exists|bytes: Vec<u8>, written: ClientResult<()>| #[trigger]
                call_ensures(*write, (bytes,), written) && bytes@ == frame && match written {
                    Ok(_) => receiver == Ok::<X, ClientError>(rx),
                    Err(e) => receiver == Err::<X, ClientError>(e),
                },
        }
}

/// One exchange of frames: the frame is sent as `frame_sent` says, and
/// `wait` is handed the receiving end of the sink and answers with what the
/// sink received.
pub open spec fn frame_exchanged<
    X,
    G: Fn(u32) -> ClientResult<X>,
    W: Fn(Vec<u8>) -> ClientResult<()>,
    A: Fn(X) -> ClientResult<Response>,
>(
    register: &G,
    write: &W,
    wait: &A,
    invoke_id: u32,
    frame: Seq<u8>,
    reply: ClientResult<Response>,
) -> bool {
    exists|receiver: ClientResult<X>| #[trigger]
        frame_sent(register, write, invoke_id, frame, receiver) && match receiver {
            Err(e) => reply == Err::<Response, ClientError>(e),
            Ok(rx) => call_ensures(*wait, (rx,), reply),
        }
}

/// Sends one frame: registers a sink for the response, then writes the frame.
pub fn send_frame<X, G: Fn(u32) -> ClientResult<X>, W: Fn(Vec<u8>) -> ClientResult<()>>(
    invoke_id: u32,
    frame: Vec<u8>,
    register: &G,
    write: &W,
) -> (receiver: ClientResult<X>)
    requires
        forall|id: u32| call_requires(*register, (id,)),
        forall|bytes: Vec<u8>| call_requires(*write, (bytes,)),
    ensures
        frame_sent(register, write, invoke_id, frame@, receiver),
{
    match register(invoke_id) {
        Err(e) => Err(e),
        Ok(rx) => match write(frame) {
            Ok(_) => Ok(rx),
            Err(e) => Err(e),
        },
    }
}

/// Sends one frame and waits for what the sink of its response receives.
pub fn exchange_frame<
    X,
    G: Fn(u32) -> ClientResult<X>,
    W: Fn(Vec<u8>) -> ClientResult<()>,
    A: Fn(X) -> ClientResult<Response>,
>(invoke_id: u32, frame: Vec<u8>, register: &G, write: &W, wait: &A) -> (reply: ClientResult<
    Response,
>)
    requires
        forall|id: u32| call_requires(*register, (id,)),
        forall|bytes: Vec<u8>| call_requires(*write, (bytes,)),
        forall|rx: X| call_requires(*wait, (rx,)),
    ensures
        frame_exchanged(register, write, wait, invoke_id, frame@, reply),
{
    match send_frame(invoke_id, frame, register, write) {
        Err(e) => Err(e),
        Ok(rx) => wait(rx),
    }
}

/// The sending of a request, as `request_rx` performs it. Where the request
/// is refused, nothing is registered and nothing is written. Else the frame
/// of the request is sent under the next invoke id as `frame_sent` says: the
/// sink is registered before the frame is written. Where a step fails, its
/// error is the result, and a failure of the transport drops the connection.
pub open spec fn sent<X, G: Fn(u32) -> ClientResult<X>, W: Fn(Vec<u8>) -> ClientResult<()>>(
    register: &G,
    write: &W,
    pre: ClientView,
    request: Request,
    post: ClientView,
    receiver: ClientResult<X>,
) -> bool {
    match refusal(pre, request) {
        Some(e) => post == pre.advanced() && receiver == Err::<X, ClientError>(e),
        None => {
            &&& frame_sent(
                register,
                write,
                pre.advanced().invoke_id,
                frame_of(pre.target, pre.source, pre.advanced().invoke_id, request),
                receiver,
            )
            &&& post == match receiver {
                Ok(_) => pre.advanced(),
                Err(e) => pre.advanced().failed(e),
            }
        },
    }
}

/// One exchange over `link`, as `request` performs it. Where the request is
/// refused, the refusal is the reply and the link is not used. Else the link
/// is handed the invoke id and the frame of the request, its answer is the
/// reply, and the client takes note of an error: after a lost connection and
/// after a failure of the transport the connection is dropped.
pub open spec fn exchanged<L: Fn(u32, Vec<u8>) -> ClientResult<Response>>(
    link: &L,
    pre: ClientView,
    request: Request,
    post: ClientView,
    reply: ClientResult<Response>,
) -> bool {
    if !pre.thread_started {
        &&& post == pre.advanced()
        &&& reply == Err::<Response, ClientError>(ClientError::Ads(ADS_ERR_CLIENT_ERROR))
    } else if !pre.connected {
        &&& post == pre.advanced()
        &&& reply == Err::<Response, ClientError>(ClientError::Ads(ADS_ERR_CLIENT_PORT_NOT_OPEN))
    } else if !fits_frame(request) {
        &&& post == pre.advanced()
        &&& reply == Err::<Response, ClientError>(ClientError::RequestTooLarge)
    } else {
        &&& post == pre.advanced().settled(reply)
        &&& exists|frame: Vec<u8>| #[trigger]
            call_ensures(*link, (pre.advanced().invoke_id, frame), reply) && frame@ == frame_of(
                pre.target,
                pre.source,
                pre.advanced().invoke_id,
                request,
            )
    }
}

/// The response to a device info request in `reply`.
pub open spec fn as_read_device_info(reply: ClientResult<Response>) -> ClientResult<
    ReadDeviceInfoResponse,
> {
    match reply {
        Ok(Response::ReadDeviceInfo(r)) => Ok(r),
        Ok(_) => Err(ClientError::UnexpectedResponse),
        Err(e) => Err(e),
    }
}

/// The response to a read in `reply`.
pub open spec fn as_read(reply: ClientResult<Response>) -> ClientResult<ReadResponse> {
    match reply {
        Ok(Response::Read(r)) => Ok(r),
        Ok(_) => Err(ClientError::UnexpectedResponse),
        Err(e) => Err(e),
    }
}

/// The response to a write in `reply`.
pub open spec fn as_write(reply: ClientResult<Response>) -> ClientResult<WriteResponse> {
    match reply {
        Ok(Response::Write(r)) => Ok(r),
        Ok(_) => Err(ClientError::UnexpectedResponse),
        Err(e) => Err(e),
    }
}

/// The response to a state request in `reply`.
pub open spec fn as_read_state(reply: ClientResult<Response>) -> ClientResult<ReadStateResponse> {
    match reply {
        Ok(Response::ReadState(r)) => Ok(r),
        Ok(_) => Err(ClientError::UnexpectedResponse),
        Err(e) => Err(e),
    }
}

/// The response to a write control request in `reply`.
pub open spec fn as_write_control(reply: ClientResult<Response>) -> ClientResult<
    WriteControlResponse,
> {
    match reply {
        Ok(Response::WriteControl(r)) => Ok(r),
        Ok(_) => Err(ClientError::UnexpectedResponse),
        Err(e) => Err(e),
    }
}

/// The response to a subscription in `reply`.
pub open spec fn as_add_device_notification(reply: ClientResult<Response>) -> ClientResult<
    AddDeviceNotificationResponse,
> {
    match reply {
        Ok(Response::AddDeviceNotification(r)) => Ok(r),
        Ok(_) => Err(ClientError::UnexpectedResponse),
        Err(e) => Err(e),
    }
}

/// The response to the end of a subscription in `reply`.
pub open spec fn as_delete_device_notification(reply: ClientResult<Response>) -> ClientResult<
    DeleteDeviceNotificationResponse,
> {
    match reply {
        Ok(Response::DeleteDeviceNotification(r)) => Ok(r),
        Ok(_) => Err(ClientError::UnexpectedResponse),
        Err(e) => Err(e),
    }
}

/// The response to a read-write in `reply`.
pub open spec fn as_read_write(reply: ClientResult<Response>) -> ClientResult<ReadWriteResponse> {
    match reply {
        Ok(Response::ReadWrite(r)) => Ok(r),
        Ok(_) => Err(ClientError::UnexpectedResponse),
        Err(e) => Err(e),
    }
}

/// Takes the response to a device info request out of a reply.
pub fn expect_read_device_info(reply: ClientResult<Response>) -> (response: ClientResult<
    ReadDeviceInfoResponse,
>)
    ensures
        response == as_read_device_info(reply),
{
    match reply {
        Ok(Response::ReadDeviceInfo(r)) => Ok(r),
        Ok(_) => Err(ClientError::UnexpectedResponse),
        Err(e) => Err(e),
    }
}

/// Takes the response to a read out of a reply.
pub fn expect_read(reply: ClientResult<Response>) -> (response: ClientResult<ReadResponse>)
    ensures
        response == as_read(reply),
{
    match reply {
        Ok(Response::Read(r)) => Ok(r),
        Ok(_) => Err(ClientError::UnexpectedResponse),
        Err(e) => Err(e),
    }
}

/// Takes the response to a write out of a reply.
pub fn expect_write(reply: ClientResult<Response>) -> (response: ClientResult<WriteResponse>)
    ensures
        response == as_write(reply),
{
    match reply {
        Ok(Response::Write(r)) => Ok(r),
        Ok(_) => Err(ClientError::UnexpectedResponse),
        Err(e) => Err(e),
    }
}

/// Takes the response to a state request out of a reply.
pub fn expect_read_state(reply: ClientResult<Response>) -> (response: ClientResult<
    ReadStateResponse,
>)
    ensures
        response == as_read_state(reply),
{
    match reply {
        Ok(Response::ReadState(r)) => Ok(r),
        Ok(_) => Err(ClientError::UnexpectedResponse),
        Err(e) => Err(e),
    }
}

/// Takes the response to a write control request out of a reply.
pub fn expect_write_control(reply: ClientResult<Response>) -> (response: ClientResult<
    WriteControlResponse,
>)
    ensures
        response == as_write_control(reply),
{
    match reply {
        Ok(Response::WriteControl(r)) => Ok(r),
        Ok(_) => Err(ClientError::UnexpectedResponse),
        Err(e) => Err(e),
    }
}

/// Takes the response to a subscription out of a reply.
pub fn expect_add_device_notification(reply: ClientResult<Response>) -> (response: ClientResult<
    AddDeviceNotificationResponse,
>)
    ensures
        response == as_add_device_notification(reply),
{
    match reply {
        Ok(Response::AddDeviceNotification(r)) => Ok(r),
        Ok(_) => Err(ClientError::UnexpectedResponse),
        Err(e) => Err(e),
    }
}

/// Takes the response to the end of a subscription out of a reply.
pub fn expect_delete_device_notification(reply: ClientResult<Response>) -> (response: ClientResult<
    DeleteDeviceNotificationResponse,
>)
    ensures
        response == as_delete_device_notification(reply),
{
    match reply {
        Ok(Response::DeleteDeviceNotification(r)) => Ok(r),
        Ok(_) => Err(ClientError::UnexpectedResponse),
        Err(e) => Err(e),
    }
}

/// Takes the response to a read-write out of a reply.
pub fn expect_read_write(reply: ClientResult<Response>) -> (response: ClientResult<
    ReadWriteResponse,
>)
    ensures
        response == as_read_write(reply),
{
    match reply {
        Ok(Response::ReadWrite(r)) => Ok(r),
        Ok(_) => Err(ClientError::UnexpectedResponse),
        Err(e) => Err(e),
    }
}

impl Client {
    /// The state of the client as a mathematical value.
    pub open spec fn view(&self) -> ClientView {
        ClientView {
            route: self.route,
            target: self.ams_targed_address,
            source: self.ams_source_address,
            connected: self.connected,
            invoke_id: self.invoke_id,
            thread_started: self.thread_started,
            handles: self.handle_list@,
            notification_handles: self.notification_handle_list@,
        }
    }

    /// A client for the controller at `ams_targed_address`. It is not
    /// connected yet, knows no handle and has sent no request.
    pub fn new(ams_targed_address: AmsAddress, route: Option<[u8; 4]>) -> (client: Client)
        ensures
            client@ == (ClientView {
                route,
                target: ams_targed_address,
                source: AmsAddress::unset(),
                connected: false,
                invoke_id: 0,
                thread_started: false,
                handles: Map::empty(),
                notification_handles: Map::empty(),
            }),
    {
        Client {
            route,
            ams_targed_address,
            ams_source_address: AmsAddress::unset(),
            connected: false,
            invoke_id: 0,
            thread_started: false,
            handle_list: HandleCache::new(),
            notification_handle_list: HandleCache::new(),
        }
    }

    /// Takes the next invoke id and builds the frame of the request under it.
    pub fn new_tcp_ams_request_header(&mut self, request: &Request) -> (outgoing: ClientResult<
        Outgoing,
    >)
        ensures
            prepared(old(self)@, *request, final(self)@, outgoing),
    {
        self.invoke_id = self.invoke_id.wrapping_add(1);
        if !request_fits(request) {
            return Err(ClientError::RequestTooLarge);
        }
        let frame = encode_request(
            &self.ams_targed_address,
            &self.ams_source_address,
            self.invoke_id,
            request,
        );
        Ok(Outgoing { invoke_id: self.invoke_id, frame })
    }

    /// Takes note of a failed exchange: after an error that tells of a lost
    /// connection or of a failed transport, the transport counts as gone and
    /// both caches are emptied.
    pub fn note_failure(&mut self, error: &ClientError)
        ensures
            final(self)@ == old(self)@.failed(*error),
    {
        if error.loses_connection() {
            self.handle_list.clear();
            self.notification_handle_list.clear();
            self.connected = false;
        }
    }

    /// Takes note of what came back for a request: an error is handled as
    /// `note_failure` says, a response changes nothing.
    pub fn check_tcp_stream(&mut self, response: &ClientResult<Response>)
        ensures
            final(self)@ == old(self)@.settled(*response),
    {
        if let Err(e) = response {
            self.note_failure(e);
        }
    }

    /// Builds the frame of a request under the next invoke id, and refuses
    /// the request where it cannot be sent: without a running reader, without
    /// a transport, and where it fits no frame.
    fn clear_request(&mut self, request: &Request) -> (outgoing: ClientResult<Outgoing>)
        ensures
            final(self)@ == old(self)@.advanced(),
            match refusal(old(self)@, *request) {
                Some(e) => outgoing == Err::<Outgoing, ClientError>(e),
                None => outgoing matches Ok(out) && out.invoke_id == final(self).invoke_id
                    && out.frame@ == frame_of(
                    old(self)@.target,
                    old(self)@.source,
                    final(self).invoke_id,
                    *request,
                ),
            },
    {
        let outgoing = self.new_tcp_ams_request_header(request);
        if !self.thread_started {
            return Err(ClientError::Ads(ADS_ERR_CLIENT_ERROR));
        }
        if !self.connected {
            return Err(ClientError::Ads(ADS_ERR_CLIENT_PORT_NOT_OPEN));
        }
        outgoing
    }

    /// Sends a request and comes back at once with the receiving end of the
    /// sink for its response: `register` registers the sink, then `write`
    /// writes the frame.
    pub fn request_rx<X, G: Fn(u32) -> ClientResult<X>, W: Fn(Vec<u8>) -> ClientResult<()>>(
        &mut self,
        request: Request,
        register: &G,
        write: &W,
    ) -> (receiver: ClientResult<X>)
        requires
            forall|id: u32| call_requires(*register, (id,)),
            forall|bytes: Vec<u8>| call_requires(*write, (bytes,)),
        ensures
            sent(register, write, old(self)@, request, final(self)@, receiver),
    {
        match self.clear_request(&request) {
            Err(e) => Err(e),
            Ok(outgoing) => {
                let receiver = send_frame(outgoing.invoke_id, outgoing.frame, register, write);
                if let Err(e) = &receiver {
                    self.note_failure(e);
                }
                receiver
            },
        }
    }

    /// Sends a request over `link` and comes back with the response.
    pub fn request<L: Fn(u32, Vec<u8>) -> ClientResult<Response>>(
        &mut self,
        request: Request,
        link: &L,
    ) -> (response: ClientResult<Response>)
        requires
            forall|id: u32, frame: Vec<u8>| call_requires(*link, (id, frame)),
        ensures
            exchanged(link, old(self)@, request, final(self)@, response),
    {
        match self.clear_request(&request) {
            Err(e) => Err(e),
            Ok(outgoing) => {
                let response = link(outgoing.invoke_id, outgoing.frame);
                self.check_tcp_stream(&response);
                response
            },
        }
    }
}

/// `request` is the write control request for the two states, without data.
pub open spec fn is_write_control_request(
    request: Request,
    ads_state: AdsState,
    device_state: u16,
) -> bool {
    &&& request matches Request::WriteControl(c)
    &&& c.ads_state == ads_state
    &&& c.device_state == device_state
    &&& c.length == 0
    &&& c.data@ == Seq::<u8>::empty()
}

/// `request` asks for the handle of the variable `var_name`.
pub open spec fn is_var_handle_request(request: Request, var_name: Seq<char>) -> bool {
    &&& request matches Request::ReadWrite(rw)
    &&& rw.index_group == GET_SYMHANDLE_BY_NAME
    &&& rw.index_offset == 0
    &&& rw.read_length == 4
    &&& rw.data@ == encode_utf8(var_name)
}

/// `request` releases `handle`.
pub open spec fn is_release_handle_request(request: Request, handle: u32) -> bool {
    &&& request matches Request::Write(w)
    &&& w.index_group == RELEASE_SYMHANDLE
    &&& w.index_offset == 0
    &&& w.data@ == spec_u32_to_le_bytes(handle)
}

/// What a reply to a handle request holds for the variable `var_name`. A
/// read-write response that announces four bytes holds the handle in them, in
/// little-endian order. One that announces another length says that the
/// controller does not know the variable. Any other reply is an error as it is.
pub open spec fn handle_learned(
    var_name: Seq<char>,
    reply: ClientResult<Response>,
    handle: ClientResult<u32>,
) -> bool {
    match as_read_write(reply) {
        Err(e) => handle == Err::<u32, ClientError>(e),
        Ok(rw) => if rw.length != 4 {
            handle matches Err(ClientError::VarHandleNotFound { name }) && name@ == var_name
        } else if rw.data@.len() < 4 {
            handle == Err::<u32, ClientError>(ClientError::Malformed)
        } else {
            handle == Ok::<u32, ClientError>(le32_at(rw.data@, 0))
        },
    }
}

/// Reads the handle of the variable `var_name` out of the reply to a handle
/// request.
pub fn handle_from_reply(var_name: &str, reply: ClientResult<Response>) -> (handle: ClientResult<
    u32,
>)
    ensures
        handle_learned(var_name@, reply, handle),
{
    let rw = expect_read_write(reply)?;
    if rw.length != 4 {
        return Err(ClientError::VarHandleNotFound { name: var_name.to_owned() });
    }
    match read_u32_le(rw.data.as_slice()) {
        Some(handle) => Ok(handle),
        None => Err(ClientError::Malformed),
    }
}

/// One handle request for `var_name` over `link`, as `request_var_handle`
/// performs it.
pub open spec fn handle_requested<L: Fn(u32, Vec<u8>) -> ClientResult<Response>>(
    link: &L,
    pre: ClientView,
    var_name: Seq<char>,
    post: ClientView,
    handle: ClientResult<u32>,
) -> bool {
    exists|request: Request, reply: ClientResult<Response>|
        is_var_handle_request(request, var_name) && #[trigger] exchanged(
            link,
            pre,
            request,
            post,
            reply,
        ) && handle_learned(var_name, reply, handle)
}

/// The handle of `var_name`, as `get_var_handle` finds it: from the cache
/// without any exchange where the cache holds it, else by one handle request,
/// whose handle is cached.
pub open spec fn handle_resolved<L: Fn(u32, Vec<u8>) -> ClientResult<Response>>(
    link: &L,
    pre: ClientView,
    var_name: Seq<char>,
    post: ClientView,
    handle: ClientResult<u32>,
) -> bool {
    if pre.handles.contains_key(var_name) {
        post == pre && handle == Ok::<u32, ClientError>(pre.handles[var_name])
    } else {
        exists|mid: ClientView| #[trigger]
            handle_requested(link, pre, var_name, mid, handle) && post == match handle {
                Ok(h) => ClientView { handles: mid.handles.insert(var_name, h), ..mid },
                Err(_) => mid,
            }
    }
}

/// What `read_by_name` does: it resolves the handle, then reads by handle.
pub open spec fn read_by_name_done<L: Fn(u32, Vec<u8>) -> ClientResult<Response>>(
    link: &L,
    pre: ClientView,
    var_name: Seq<char>,
    len: u32,
    post: ClientView,
    response: ClientResult<ReadResponse>,
) -> bool {
    exists|mid: ClientView, handle: ClientResult<u32>| #[trigger]
        handle_resolved(link, pre, var_name, mid, handle) && match handle {
            Err(e) => post == mid && response == Err::<ReadResponse, ClientError>(e),
            Ok(h) => exists|reply: ClientResult<Response>| #[trigger]
                exchanged(
                    link,
                    mid,
                    Request::Read(
                        ReadRequest {
                            index_group: READ_WRITE_SYMVAL_BY_HANDLE,
                            index_offset: h,
                            length: len,
                        },
                    ),
                    post,
                    reply,
                ) && response == as_read(reply),
        }
}

/// What `write_by_name` does: it resolves the handle, then writes by handle.
pub open spec fn write_by_name_done<L: Fn(u32, Vec<u8>) -> ClientResult<Response>>(
    link: &L,
    pre: ClientView,
    var_name: Seq<char>,
    data: Vec<u8>,
    post: ClientView,
    response: ClientResult<WriteResponse>,
) -> bool {
    exists|mid: ClientView, handle: ClientResult<u32>| #[trigger]
        handle_resolved(link, pre, var_name, mid, handle) && match handle {
            Err(e) => post == mid && response == Err::<WriteResponse, ClientError>(e),
            Ok(h) => exists|reply: ClientResult<Response>| #[trigger]
                exchanged(
                    link,
                    mid,
                    Request::Write(
                        WriteRequest {
                            index_group: READ_WRITE_SYMVAL_BY_HANDLE,
                            index_offset: h,
                            data,
                        },
                    ),
                    post,
                    reply,
                ) && response == as_write(reply),
        }
}

/// What `add_device_notification` does: it resolves the handle of the
/// variable and subscribes by handle. With the notification handle of the
/// response, `subscribe` registers a sink for the notifications at the reader
/// and answers with its receiving end; then the notification handle is cached
/// under the name of the variable.
pub open spec fn subscribed<
    X,
    L: Fn(u32, Vec<u8>) -> ClientResult<Response>,
    U: Fn(u32) -> ClientResult<X>,
>(
    link: &L,
    subscribe: &U,
    pre: ClientView,
    var_name: Seq<char>,
    length: u32,
    transmission_mode: AdsTransMode,
    max_delay: u32,
    cycle_time: u32,
    post: ClientView,
    receiver: ClientResult<X>,
) -> bool {
    exists|mid: ClientView, handle: ClientResult<u32>| #[trigger]
        handle_resolved(link, pre, var_name, mid, handle) && match handle {
            Err(e) => post == mid && receiver == Err::<X, ClientError>(e),
            Ok(h) => exists|last: ClientView, reply: ClientResult<Response>| #[trigger]
                exchanged(
                    link,
                    mid,
                    Request::AddDeviceNotification(
                        AddDeviceNotificationRequest {
                            index_group: READ_WRITE_SYMVAL_BY_HANDLE,
                            index_offset: h,
                            length,
                            transmission_mode,
                            max_delay,
                            cycle_time,
                        },
                    ),
                    last,
                    reply,
                ) && match as_add_device_notification(reply) {
                    Err(e) => post == last && receiver == Err::<X, ClientError>(e),
                    Ok(r) => call_ensures(*subscribe, (r.notification_handle,), receiver)
                        && post == if receiver is Ok {
                        ClientView {
                            notification_handles: last.notification_handles.insert(
                                var_name,
                                r.notification_handle,
                            ),
                            ..last
                        }
                    } else {
                        last
                    },
                },
        }
}

/// What `delete_device_notification` does. Without a cached subscription for
/// the variable it fails at once. Else it ends the subscription by its
/// notification handle. When the controller answered, the handle is
/// forgotten, and `unsubscribe` is handed the handle, to have the sink under
/// it taken out of the reader's table.
pub open spec fn unsubscribed<L: Fn(u32, Vec<u8>) -> ClientResult<Response>, U: Fn(u32) -> bool>(
    link: &L,
    unsubscribe: &U,
    pre: ClientView,
    var_name: Seq<char>,
    post: ClientView,
    response: ClientResult<DeleteDeviceNotificationResponse>,
) -> bool {
    if !pre.notification_handles.contains_key(var_name) {
        post == pre && response == Err::<DeleteDeviceNotificationResponse, ClientError>(
            ClientError::Ads(ADS_ERR_DEVICE_SYMBOL_NOT_FOUND),
        )
    } else {
        exists|mid: ClientView, reply: ClientResult<Response>| #[trigger]
            exchanged(
                link,
                pre,
                Request::DeleteDeviceNotification(
                    DeleteDeviceNotificationRequest {
                        handle: pre.notification_handles[var_name],
                    },
                ),
                mid,
                reply,
            ) && response == as_delete_device_notification(reply) && if response is Ok {
                &&& post == (ClientView {
                    notification_handles: mid.notification_handles.remove(var_name),
                    ..mid
                })
                &&& exists|told: bool| #[trigger]
                    call_ensures(*unsubscribe, (pre.notification_handles[var_name],), told)
            } else {
                post == mid
            }
    }
}

/// What `release_handle` does. Without a cached handle for the variable it
/// fails at once. Else it releases the handle, and forgets it when the
/// controller answered.
pub open spec fn released<L: Fn(u32, Vec<u8>) -> ClientResult<Response>>(
    link: &L,
    pre: ClientView,
    var_name: Seq<char>,
    post: ClientView,
    response: ClientResult<WriteResponse>,
) -> bool {
    if !pre.handles.contains_key(var_name) {
        post == pre && response == Err::<WriteResponse, ClientError>(
            ClientError::HandleNotAvailable,
        )
    } else {
        exists|request: Request, mid: ClientView, reply: ClientResult<Response>|
            is_release_handle_request(request, pre.handles[var_name]) && #[trigger] exchanged(
                link,
                pre,
                request,
                mid,
                reply,
            ) && response == as_write(reply) && post == if response is Ok {
                ClientView { handles: mid.handles.remove(var_name), ..mid }
            } else {
                mid
            }
    }
}

impl Client {
    /// Reads name and version of the device.
    pub fn read_device_info<L: Fn(u32, Vec<u8>) -> ClientResult<Response>>(
        &mut self,
        link: &L,
    ) -> (response: ClientResult<ReadDeviceInfoResponse>)
        requires
            forall|id: u32, frame: Vec<u8>| call_requires(*link, (id, frame)),
        ensures
            exists|reply: ClientResult<Response>| #[trigger]
                exchanged(link, old(self)@, Request::ReadDeviceInfo, final(self)@, reply)
                    && response == as_read_device_info(reply),
    {
        let reply = self.request(Request::ReadDeviceInfo, link);
        expect_read_device_info(reply)
    }

    /// Reads the ADS state and the device state of the controller.
    pub fn read_state<L: Fn(u32, Vec<u8>) -> ClientResult<Response>>(&mut self, link: &L) -> (response:
        ClientResult<ReadStateResponse>)
        requires
            forall|id: u32, frame: Vec<u8>| call_requires(*link, (id, frame)),
        ensures
            exists|reply: ClientResult<Response>| #[trigger]
                exchanged(link, old(self)@, Request::ReadState, final(self)@, reply) && response
                    == as_read_state(reply),
    {
        let reply = self.request(Request::ReadState, link);
        expect_read_state(reply)
    }

    /// Sets the ADS state and the device state of the controller.
    pub fn write_control<L: Fn(u32, Vec<u8>) -> ClientResult<Response>>(
        &mut self,
        ads_state: AdsState,
        device_state: u16,
        link: &L,
    ) -> (response: ClientResult<WriteControlResponse>)
        requires
            forall|id: u32, frame: Vec<u8>| call_requires(*link, (id, frame)),
        ensures
            exists|request: Request, reply: ClientResult<Response>|
                is_write_control_request(request, ads_state, device_state) && #[trigger] exchanged(
                    link,
                    old(self)@,
                    request,
                    final(self)@,
                    reply,
                ) && response == as_write_control(reply),
    {
        let request = Request::WriteControl(get_write_control_request(ads_state, device_state));
        let reply = self.request(request, link);
        expect_write_control(reply)
    }

    /// Writes `write_data` at `index_offset` of the handle service and reads
    /// `read_len` bytes back.
    pub fn read_write<L: Fn(u32, Vec<u8>) -> ClientResult<Response>>(
        &mut self,
        index_offset: u32,
        read_len: u32,
        write_data: Vec<u8>,
        link: &L,
    ) -> (response: ClientResult<ReadWriteResponse>)
        requires
            forall|id: u32, frame: Vec<u8>| call_requires(*link, (id, frame)),
        ensures
            exists|reply: ClientResult<Response>| #[trigger]
                exchanged(
                    link,
                    old(self)@,
                    Request::ReadWrite(
                        ReadWriteRequest {
                            index_group: GET_SYMHANDLE_BY_NAME,
                            index_offset,
                            read_length: read_len,
                            data: write_data,
                        },
                    ),
                    final(self)@,
                    reply,
                ) && response == as_read_write(reply),
    {
        let request = Request::ReadWrite(get_read_write_request(index_offset, read_len, write_data));
        let reply = self.request(request, link);
        expect_read_write(reply)
    }

    /// Asks the controller for the handle of the variable `var_name`.
    pub fn request_var_handle<L: Fn(u32, Vec<u8>) -> ClientResult<Response>>(
        &mut self,
        var_name: &str,
        link: &L,
    ) -> (handle: ClientResult<u32>)
        requires
            forall|id: u32, frame: Vec<u8>| call_requires(*link, (id, frame)),
        ensures
            handle_requested(link, old(self)@, var_name@, final(self)@, handle),
    {
        let request = Request::ReadWrite(get_var_handle_request(var_name));
        let reply = self.request(request, link);
        handle_from_reply(var_name, reply)
    }

    /// Finds the handle of the variable `var_name`: in the cache, or else by
    /// asking the controller and caching the answer.
    pub fn get_var_handle<L: Fn(u32, Vec<u8>) -> ClientResult<Response>>(
        &mut self,
        var_name: &str,
        link: &L,
    ) -> (handle: ClientResult<u32>)
        requires
            forall|id: u32, frame: Vec<u8>| call_requires(*link, (id, frame)),
        ensures
            handle_resolved(link, old(self)@, var_name@, final(self)@, handle),
    {
        if let Some(handle) = self.handle_list.get(var_name) {
            return Ok(handle);
        }
        let handle = self.request_var_handle(var_name, link);
        if let Ok(h) = &handle {
            self.handle_list.insert(var_name, *h);
        }
        handle
    }

    /// Reads `len` bytes of the variable `var_name`.
    pub fn read_by_name<L: Fn(u32, Vec<u8>) -> ClientResult<Response>>(
        &mut self,
        var_name: &str,
        len: u32,
        link: &L,
    ) -> (response: ClientResult<ReadResponse>)
        requires
            forall|id: u32, frame: Vec<u8>| call_requires(*link, (id, frame)),
        ensures
            read_by_name_done(link, old(self)@, var_name@, len, final(self)@, response),
    {
        let handle = self.get_var_handle(var_name, link)?;
        let request = Request::Read(get_read_request(handle, len));
        let reply = self.request(request, link);
        expect_read(reply)
    }

    /// Writes `data` to the variable `var_name`.
    pub fn write_by_name<L: Fn(u32, Vec<u8>) -> ClientResult<Response>>(
        &mut self,
        var_name: &str,
        data: Vec<u8>,
        link: &L,
    ) -> (response: ClientResult<WriteResponse>)
        requires
            forall|id: u32, frame: Vec<u8>| call_requires(*link, (id, frame)),
        ensures
            write_by_name_done(link, old(self)@, var_name@, data, final(self)@, response),
    {
        let handle = self.get_var_handle(var_name, link)?;
        let request = Request::Write(get_write_request(handle, data));
        let reply = self.request(request, link);
        expect_write(reply)
    }

    /// Subscribes to the variable `var_name` and comes back with the
    /// receiving end of the sink for its notifications, which `subscribe`
    /// registers under the notification handle.
    pub fn add_device_notification<
        X,
        L: Fn(u32, Vec<u8>) -> ClientResult<Response>,
        U: Fn(u32) -> ClientResult<X>,
    >(
        &mut self,
        var_name: &str,
        length: u32,
        transmission_mode: AdsTransMode,
        max_delay: u32,
        cycle_time: u32,
        link: &L,
        subscribe: &U,
    ) -> (receiver: ClientResult<X>)
        requires
            forall|id: u32, frame: Vec<u8>| call_requires(*link, (id, frame)),
            forall|handle: u32| call_requires(*subscribe, (handle,)),
        ensures
            subscribed(
                link,
                subscribe,
                old(self)@,
                var_name@,
                length,
                transmission_mode,
                max_delay,
                cycle_time,
                final(self)@,
                receiver,
            ),
    {
        let handle = match self.get_var_handle(var_name, link) {
            Ok(handle) => handle,
            Err(e) => {
                return Err(e);
            },
        };
        let request = Request::AddDeviceNotification(
            get_add_device_notification(handle, length, transmission_mode, max_delay, cycle_time),
        );
        let reply = self.request(request, link);
        let response = match expect_add_device_notification(reply) {
            Ok(response) => response,
            Err(e) => {
                return Err(e);
            },
        };
        let receiver = subscribe(response.notification_handle);
        if receiver.is_ok() {
            self.notification_handle_list.insert(var_name, response.notification_handle);
        }
        receiver
    }

    /// Ends the subscription to the variable `var_name`, at the controller
    /// and, through `unsubscribe`, at the reader.
    pub fn delete_device_notification<
        L: Fn(u32, Vec<u8>) -> ClientResult<Response>,
        U: Fn(u32) -> bool,
    >(&mut self, var_name: &str, link: &L, unsubscribe: &U) -> (response: ClientResult<
        DeleteDeviceNotificationResponse,
    >)
        requires
            forall|id: u32, frame: Vec<u8>| call_requires(*link, (id, frame)),
            forall|handle: u32| call_requires(*unsubscribe, (handle,)),
        ensures
            unsubscribed(link, unsubscribe, old(self)@, var_name@, final(self)@, response),
    {
        match self.notification_handle_list.get(var_name) {
            None => Err(ClientError::Ads(ADS_ERR_DEVICE_SYMBOL_NOT_FOUND)),
            Some(handle) => {
                let request = Request::DeleteDeviceNotification(
                    get_delete_device_notification(handle),
                );
                let reply = self.request(request, link);
                let response = expect_delete_device_notification(reply)?;
                self.notification_handle_list.remove(var_name);
                let _ = unsubscribe(handle);
                Ok(response)
            },
        }
    }

    /// Gives the handle of the variable `var_name` back to the controller.
    pub fn release_handle<L: Fn(u32, Vec<u8>) -> ClientResult<Response>>(
        &mut self,
        var_name: &str,
        link: &L,
    ) -> (response: ClientResult<WriteResponse>)
        requires
            forall|id: u32, frame: Vec<u8>| call_requires(*link, (id, frame)),
        ensures
            released(link, old(self)@, var_name@, final(self)@, response),
    {
        match self.handle_list.get(var_name) {
            None => Err(ClientError::HandleNotAvailable),
            Some(handle) => {
                let request = Request::Write(get_release_handle_request(handle));
                let reply = self.request(request, link);
                let response = expect_write(reply)?;
                self.handle_list.remove(var_name);
                Ok(response)
            },
        }
    }
}

/// The invoke id of the `n`-th request after the one with invoke id `start`.
pub open spec fn nth_invoke_id(start: u32, n: nat) -> u32
    decreases n,
{
    if n == 0 {
        start
    } else {
        next_invoke_id(nth_invoke_id(start, (n - 1) as nat))
    }
}

/// The invoke ids count up modulo 2^32.
pub proof fn lemma_nth_invoke_id(start: u32, n: nat)
    ensures
        nth_invoke_id(start, n) == (start + n) % 0x1_0000_0000,
    decreases n,
{
    if n > 0 {
        lemma_nth_invoke_id(start, (n - 1) as nat);
        let before = nth_invoke_id(start, (n - 1) as nat);
        assert(before == (start + n - 1) % 0x1_0000_0000);
        assert((start + n) % 0x1_0000_0000 == if before == 0xFFFF_FFFF {
            0
        } else {
            before + 1
        }) by (nonlinear_arith)
            requires
                before == (start + n - 1) % 0x1_0000_0000,
                start + n >= 1,
        ;
    }
}

/// Unique correlation. Two requests of one client carry different invoke
/// ids, unless 2^32 or more requests lie between them: the ids of the
/// requests that are in flight at one time are all different.
pub proof fn lemma_invoke_ids_differ(start: u32, i: nat, j: nat)
    requires
        i < j,
        j - i < 0x1_0000_0000,
    ensures
        nth_invoke_id(start, i) != nth_invoke_id(start, j),
{
    lemma_nth_invoke_id(start, i);
    lemma_nth_invoke_id(start, j);
    assert((start + i) % 0x1_0000_0000 != (start + j) % 0x1_0000_0000) by (nonlinear_arith)
        requires
            i < j,
            j - i < 0x1_0000_0000,
            start >= 0,
    ;
}

/// Every request takes the invoke id that follows the one before it, in
/// every state of the client and whether it fits a frame or not.
pub proof fn lemma_request_takes_next_id(
    pre: ClientView,
    request: Request,
    post: ClientView,
    outgoing: ClientResult<Outgoing>,
)
    requires
        prepared(pre, request, post, outgoing),
    ensures
        post.invoke_id == nth_invoke_id(pre.invoke_id, 1),
        outgoing matches Ok(out) ==> out.invoke_id == post.invoke_id,
{
    assert(nth_invoke_id(pre.invoke_id, 0) == pre.invoke_id);
}

/// The requests of a client count up: where `states` are the states of a
/// client before, between and after a row of requests, request `k` of the row
/// carries the `k`-th invoke id after the one that the client started with.
pub proof fn lemma_requests_count_up(
    states: Seq<ClientView>,
    requests: Seq<Request>,
    outgoing: Seq<ClientResult<Outgoing>>,
    k: int,
)
    requires
        states.len() == requests.len() + 1,
        outgoing.len() == requests.len(),
        forall|j: int|
            #![trigger requests[j]]
            0 <= j < requests.len() ==> prepared(
                states[j],
                requests[j],
                states[j + 1],
                outgoing[j],
            ),
        0 <= k <= requests.len(),
    ensures
        states[k].invoke_id == nth_invoke_id(states[0].invoke_id, k as nat),
        k > 0 && outgoing[k - 1] is Ok ==> outgoing[k - 1]->Ok_0.invoke_id == nth_invoke_id(
            states[0].invoke_id,
            k as nat,
        ),
    decreases k,
{
    if k > 0 {
        lemma_requests_count_up(states, requests, outgoing, k - 1);
        assert(prepared(states[k - 1], requests[k - 1], states[k], outgoing[k - 1]));
    }
}

/// A failure of the transport drops the connection. Where the link answers
/// a request that was sent with a transport error, the client has no
/// transport afterwards and both caches are empty: the next connect opens a
/// new transport.
pub proof fn lemma_transport_failure_drops_connection<
    L: Fn(u32, Vec<u8>) -> ClientResult<Response>,
>(link: &L, pre: ClientView, request: Request, post: ClientView)
    requires
        exchanged(link, pre, request, post, Err(ClientError::Transport)),
    ensures
        !post.connected,
        post.handles == Map::<Seq<char>, u32>::empty(),
        post.notification_handles == Map::<Seq<char>, u32>::empty(),
        post.thread_started == pre.thread_started,
{
}

/// The first thing that an operation by name does for a variable without a
/// cached handle is to ask the controller for the handle.
pub proof fn lemma_uncached_name_is_asked<L: Fn(u32, Vec<u8>) -> ClientResult<Response>>(
    link: &L,
    pre: ClientView,
    var_name: Seq<char>,
    len: u32,
    post: ClientView,
    response: ClientResult<ReadResponse>,
)
    requires
        read_by_name_done(link, pre, var_name, len, post, response),
        !pre.handles.contains_key(var_name),
    ensures
        exists|request: Request, mid: ClientView, reply: ClientResult<Response>|
            is_var_handle_request(request, var_name) && #[trigger] exchanged(
                link,
                pre,
                request,
                mid,
                reply,
            ),
{
}

/// A variable with a cached handle is read by that handle at once, without
/// a handle request.
pub proof fn lemma_cached_name_is_read<L: Fn(u32, Vec<u8>) -> ClientResult<Response>>(
    link: &L,
    pre: ClientView,
    var_name: Seq<char>,
    len: u32,
    post: ClientView,
    response: ClientResult<ReadResponse>,
)
    requires
        read_by_name_done(link, pre, var_name, len, post, response),
        pre.handles.contains_key(var_name),
    ensures
        exists|reply: ClientResult<Response>| #[trigger]
            exchanged(
                link,
                pre,
                Request::Read(
                    ReadRequest {
                        index_group: READ_WRITE_SYMVAL_BY_HANDLE,
                        index_offset: pre.handles[var_name],
                        length: len,
                    },
                ),
                post,
                reply,
            ) && response == as_read(reply),
{
}

/// Unsubscribing ends the notifications. After `delete_device_notification`
/// has succeeded, no notification handle is cached for the variable, and
/// `unsubscribe` was told the handle that was. Once that change has reached
/// the reader, and no subscription has begun under the handle since, the
/// turn of the reader that takes note of it hands no stream on under the
/// handle, whatever it reads, and leaves no sink under it.
pub proof fn lemma_unsubscribe_ends_notifications<
    L: Fn(u32, Vec<u8>) -> ClientResult<Response>,
    U: Fn(u32) -> bool,
    R,
    N,
    D: Fn(R, ClientResult<Response>) -> bool,
    M: Fn(&N, Result<&AdsNotificationStream, ClientError>) -> bool,
>(
    link: &L,
    unsubscribe: &U,
    pre: ClientView,
    var_name: Seq<char>,
    post: ClientView,
    response: ClientResult<DeleteDeviceNotificationResponse>,
    deliver: &D,
    notify: &M,
    general: Map<u32, R>,
    notifications: Map<u32, N>,
    changes: Seq<SubscriptionChange<N>>,
    i: int,
    outcome: Result<AmsHeader, ReadError>,
    general_after: Map<u32, R>,
    notifications_after: Map<u32, N>,
)
    requires
        unsubscribed(link, unsubscribe, pre, var_name, post, response),
        response is Ok,
        0 <= i < changes.len(),
        changes[i] == (SubscriptionChange::<N>::Unsubscribe {
            handle: pre.notification_handles[var_name],
        }),
        forall|j: int|
            i < j < changes.len() && (#[trigger] changes[j]).handle()
                == pre.notification_handles[var_name] ==> changes[j] is Unsubscribe,
        turned(
            deliver,
            notify,
            general,
            changed(notifications, changes),
            outcome,
            general_after,
            notifications_after,
        ),
    ensures
        pre.notification_handles.contains_key(var_name),
        !post.notification_handles.contains_key(var_name),
        exists|told: bool| #[trigger]
            call_ensures(*unsubscribe, (pre.notification_handles[var_name],), told),
        !notifications_after.contains_key(pre.notification_handles[var_name]),
        forall|decided: Map<u32, N>, dispatch: Dispatch<R, N>| #[trigger]
            stepped(
                general,
                changed(notifications, changes),
                outcome,
                general_after,
                decided,
                dispatch,
            ) ==> (dispatch matches Dispatch::Notify { handles, .. } ==> !handles@.contains(
                pre.notification_handles[var_name],
            )),
{
    lemma_unsubscribed_gets_nothing(
        deliver,
        notify,
        general,
        notifications,
        changes,
        i,
        outcome,
        general_after,
        notifications_after,
    );
}

} // verus!
