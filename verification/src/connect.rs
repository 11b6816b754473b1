//! Connecting: what has to happen to the transport and the reader before the
//! client can exchange frames, and what the client learns on the way.
//!
//! The steps themselves are done by a `transport` function of the program
//! around the library; the client decides which steps are due, in which
//! order, and what their answers mean.
use crate::client::as_read_state;
use crate::client::Client;
use crate::client::ClientView;
use crate::client::exchanged;
use crate::codec::decode_ams_address;
use crate::codec::le16_at;
use crate::error::ClientError;
use crate::error::ClientResult;
use crate::proto::AmsAddress;
use crate::proto::ReadStateResponse;
use crate::proto::Request;
use crate::proto::Response;
use vstd::prelude::*;
use vstd::slice::slice_subrange;

verus! {

/// What a client without a route sends to the router of its machine to have
/// a port opened.
pub const PORT_OPEN_REQUEST: [u8; 8] = [0, 16, 2, 0, 0, 0, 0, 0];

/// The length of the router's answer to `PORT_OPEN_REQUEST`.
pub const PORT_OPEN_REPLY_SIZE: usize = 14;

/// Where the address of the client starts in the router's answer.
pub const PORT_OPEN_ADDRESS_OFFSET: usize = 6;

/// One step on the transport or the reader.
#[derive(Debug, Clone, Copy, PartialEq, Eq)]
pub enum TransportStep {
    /// Open a TCP connection to the ADS port of the route, or of the own
    /// machine where there is no route, without delay and with read and write
    /// timeouts of one second.
    Open { route: Option<[u8; 4]> },
    /// Send `request` and read exactly `reply_size` bytes.
    Handshake { request: [u8; 8], reply_size: usize },
    /// Tell the IPv4 address and the port of the local end of the connection.
    LocalAddress,
    /// Start the reader on the transport.
    StartReader,
    /// Hand the transport to the reader that runs already.
    UpdateReader,
}

/// The answer to a step.
#[derive(Debug, Clone, PartialEq, Eq)]
pub enum TransportReply {
    Done,
    Bytes(Vec<u8>),
    Address { ip: [u8; 4], port: u16 },
}

/// The steps that a `connect` takes before it asks for the state of the
/// controller.
#[derive(Debug, Clone, Copy, PartialEq, Eq, Structural)]
pub struct ConnectPlan {
    /// A transport has to be opened.
    pub open: bool,
    /// The router has to be asked for a port, over the new transport.
    pub handshake: bool,
    /// The address of the client follows from the local end of the transport.
    pub local_address: bool,
    /// The reader has to be started; else it runs and gets the transport.
    pub start_reader: bool,
}

/// The plan of a client in a given state. A transport is opened only where
/// none is open, and the reader is started only where none runs.
pub open spec fn spec_connect_plan(client: ClientView) -> ConnectPlan {
    ConnectPlan {
        open: !client.connected,
        handshake: !client.connected && client.route is None,
        local_address: client.route is Some,
        start_reader: !client.thread_started,
    }
}

/// The state in which the address of the client is `source` and all else is
/// as in `pre`.
pub open spec fn with_source(pre: ClientView, source: AmsAddress) -> ClientView {
    ClientView { source, ..pre }
}

/// Opening the transport: the step is `Open` with the route of the client;
/// where it succeeds the client has a transport.
pub open spec fn stream_created<T: Fn(TransportStep) -> ClientResult<TransportReply>>(
    transport: &T,
    pre: ClientView,
    post: ClientView,
    result: ClientResult<()>,
) -> bool {
    exists|reply: ClientResult<TransportReply>| #[trigger]
        call_ensures(*transport, (TransportStep::Open { route: pre.route },), reply)
            && match reply {
            Ok(_) => post == (ClientView { connected: true, ..pre }) && result == Ok::<
                (),
                ClientError,
            >(()),
            Err(e) => post == pre && result == Err::<(), ClientError>(e),
        }
}

/// What the router's answer to the port request tells: fourteen bytes hold
/// the address of the client from byte 6 on, net id first, then the port.
/// Any other answer is malformed. Where the handshake failed, a failure of
/// the transport drops the connection.
pub open spec fn source_learned(
    pre: ClientView,
    reply: ClientResult<TransportReply>,
    post: ClientView,
    result: ClientResult<()>,
) -> bool {
    match reply {
        Err(e) => post == pre.failed(e) && result == Err::<(), ClientError>(e),
        Ok(TransportReply::Bytes(bytes)) => if bytes@.len() == PORT_OPEN_REPLY_SIZE {
            &&& post == with_source(pre, post.source)
            &&& post.source.net_id@ == bytes@.subrange(6, 12)
            &&& post.source.port == le16_at(bytes@, 12)
            &&& result == Ok::<(), ClientError>(())
        } else {
            post == pre && result == Err::<(), ClientError>(ClientError::Malformed)
        },
        Ok(_) => post == pre && result == Err::<(), ClientError>(ClientError::Malformed),
    }
}

/// Asking the router for a port: the step is the handshake with
/// `PORT_OPEN_REQUEST`, and its answer tells the address of the client.
pub open spec fn local_port_opened<T: Fn(TransportStep) -> ClientResult<TransportReply>>(
    transport: &T,
    pre: ClientView,
    post: ClientView,
    result: ClientResult<()>,
) -> bool {
    exists|reply: ClientResult<TransportReply>| #[trigger]
        call_ensures(
            *transport,
            (
                TransportStep::Handshake {
                    request: PORT_OPEN_REQUEST,
                    reply_size: PORT_OPEN_REPLY_SIZE,
                },
            ),
            reply,
        ) && source_learned(pre, reply, post, result)
}

/// The first part of a connect: with a transport open nothing happens; else
/// one is opened, and a client without a route asks the router for a port.
pub open spec fn transport_ready<T: Fn(TransportStep) -> ClientResult<TransportReply>>(
    transport: &T,
    pre: ClientView,
    post: ClientView,
    result: ClientResult<()>,
) -> bool {
    if !spec_connect_plan(pre).open {
        post == pre && result == Ok::<(), ClientError>(())
    } else {
        exists|mid: ClientView, created: ClientResult<()>| #[trigger]
            stream_created(transport, pre, mid, created) && if created is Err
                || !spec_connect_plan(pre).handshake {
                post == mid && result == created
            } else {
                local_port_opened(transport, mid, post, result)
            }
    }
}

/// What the local end of the transport tells: the address of the client is
/// the IPv4 address followed by `.1.1`, with the port of the socket. Where
/// the transport does not tell, a failure of the transport drops the
/// connection.
pub open spec fn source_located(
    pre: ClientView,
    reply: ClientResult<TransportReply>,
    post: ClientView,
    result: ClientResult<()>,
) -> bool {
    match reply {
        Err(e) => post == pre.failed(e) && result == Err::<(), ClientError>(e),
        Ok(TransportReply::Address { ip, port }) => post == with_source(
            pre,
            AmsAddress::from_socket(ip, port),
        ) && result == Ok::<(), ClientError>(()),
        Ok(_) => post == pre && result == Err::<(), ClientError>(ClientError::Malformed),
    }
}

/// The second part of a connect: a client with a route takes its address
/// from the local end of the transport.
pub open spec fn address_ready<T: Fn(TransportStep) -> ClientResult<TransportReply>>(
    transport: &T,
    pre: ClientView,
    post: ClientView,
    result: ClientResult<()>,
) -> bool {
    if !spec_connect_plan(pre).local_address {
        post == pre && result == Ok::<(), ClientError>(())
    } else {
        exists|reply: ClientResult<TransportReply>| #[trigger]
            call_ensures(*transport, (TransportStep::LocalAddress,), reply) && source_located(
                pre,
                reply,
                post,
                result,
            )
    }
}

/// What the answer to starting or updating the reader means: after success
/// the reader runs.
pub open spec fn reader_attached(
    pre: ClientView,
    reply: ClientResult<TransportReply>,
    post: ClientView,
    result: ClientResult<()>,
) -> bool {
    match reply {
        Ok(_) => post == (ClientView { thread_started: true, ..pre }) && result == Ok::<
            (),
            ClientError,
        >(()),
        Err(e) => post == pre && result == Err::<(), ClientError>(e),
    }
}

/// The third part of a connect: the reader is started where none runs, and
/// gets the transport where it runs already.
pub open spec fn reader_ready<T: Fn(TransportStep) -> ClientResult<TransportReply>>(
    transport: &T,
    pre: ClientView,
    post: ClientView,
    result: ClientResult<()>,
) -> bool {
    if spec_connect_plan(pre).start_reader {
        exists|reply: ClientResult<TransportReply>| #[trigger]
            call_ensures(*transport, (TransportStep::StartReader,), reply) && reader_attached(
                pre,
                reply,
                post,
                result,
            )
    } else {
        exists|reply: ClientResult<TransportReply>| #[trigger]
            call_ensures(*transport, (TransportStep::UpdateReader,), reply) && reader_attached(
                pre,
                reply,
                post,
                result,
            )
    }
}

/// What `connect` does: the three parts in their order, each only after the
/// one before it succeeded, and then a state request whose answer is the
/// result.
pub open spec fn connected<
    T: Fn(TransportStep) -> ClientResult<TransportReply>,
    L: Fn(u32, Vec<u8>) -> ClientResult<Response>,
>(
    transport: &T,
    link: &L,
    pre: ClientView,
    post: ClientView,
    result: ClientResult<ReadStateResponse>,
) -> bool {
    exists|opened: ClientView, first: ClientResult<()>| #[trigger]
        transport_ready(transport, pre, opened, first) && match first {
            Err(e) => post == opened && result == Err::<ReadStateResponse, ClientError>(e),
            Ok(_) => exists|located: ClientView, second: ClientResult<()>| #[trigger]
                address_ready(transport, opened, located, second) && match second {
                    Err(e) => post == located && result == Err::<ReadStateResponse, ClientError>(
                        e,
                    ),
                    Ok(_) => exists|attached: ClientView, third: ClientResult<()>| #[trigger]
                        reader_ready(transport, located, attached, third) && match third {
                            Err(e) => post == attached && result == Err::<
                                ReadStateResponse,
                                ClientError,
                            >(e),
                            Ok(_) => exists|reply: ClientResult<Response>| #[trigger]
                                exchanged(link, attached, Request::ReadState, post, reply)
                                    && result == as_read_state(reply),
                        },
                },
        }
}

impl Client {
    /// The steps that a `connect` would take now.
    pub fn connect_plan(&self) -> (plan: ConnectPlan)
        ensures
            plan == spec_connect_plan(self@),
    {
        ConnectPlan {
            open: !self.connected,
            handshake: !self.connected && self.route.is_none(),
            local_address: self.route.is_some(),
            start_reader: !self.thread_started,
        }
    }

    /// Has the transport opened.
    pub fn create_stream<T: Fn(TransportStep) -> ClientResult<TransportReply>>(
        &mut self,
        transport: &T,
    ) -> (result: ClientResult<()>)
        requires
            forall|step: TransportStep| call_requires(*transport, (step,)),
        ensures
            stream_created(transport, old(self)@, final(self)@, result),
    {
        match transport(TransportStep::Open { route: self.route }) {
            Ok(_) => {
                self.connected = true;
                Ok(())
            },
            Err(e) => Err(e),
        }
    }

    /// Takes the address of the client out of the router's answer to the
    /// port request.
    pub fn learn_source(&mut self, reply: ClientResult<TransportReply>) -> (result: ClientResult<()>)
        ensures
            source_learned(old(self)@, reply, final(self)@, result),
    {
        match reply {
            Err(e) => {
                self.note_failure(&e);
                Err(e)
            },
            Ok(TransportReply::Bytes(bytes)) => {
                if bytes.len() != PORT_OPEN_REPLY_SIZE {
                    return Err(ClientError::Malformed);
                }
                let tail = slice_subrange(bytes.as_slice(), PORT_OPEN_ADDRESS_OFFSET, bytes.len());
                match decode_ams_address(tail) {
                    Some(address) => {
                        proof {
                            assert(tail@.subrange(0, 6) =~= bytes@.subrange(6, 12));
                            assert(tail@.subrange(6, 8) =~= bytes@.subrange(12, 14));
                        }
                        self.ams_source_address = address;
                        Ok(())
                    },
                    None => Err(ClientError::Malformed),
                }
            },
            Ok(_) => Err(ClientError::Malformed),
        }
    }

    /// Asks the router of the own machine for a port and learns the address
    /// of the client from the answer.
    pub fn open_local_port<T: Fn(TransportStep) -> ClientResult<TransportReply>>(
        &mut self,
        transport: &T,
    ) -> (result: ClientResult<()>)
        requires
            forall|step: TransportStep| call_requires(*transport, (step,)),
        ensures
            local_port_opened(transport, old(self)@, final(self)@, result),
    {
        let reply = transport(
            TransportStep::Handshake {
                request: PORT_OPEN_REQUEST,
                reply_size: PORT_OPEN_REPLY_SIZE,
            },
        );
        self.learn_source(reply)
    }

    /// Takes the address of the client from the local end of the transport.
    pub fn locate_source(&mut self, reply: ClientResult<TransportReply>) -> (result: ClientResult<
        (),
    >)
        ensures
            source_located(old(self)@, reply, final(self)@, result),
    {
        match reply {
            Err(e) => {
                self.note_failure(&e);
                Err(e)
            },
            Ok(TransportReply::Address { ip, port }) => {
                self.ams_source_address = AmsAddress::from_socket(ip, port);
                Ok(())
            },
            Ok(_) => Err(ClientError::Malformed),
        }
    }

    /// Connects to the controller: opens a transport where none is open,
    /// learns the address of the client, starts the reader where none runs,
    /// and asks the controller for its state to see that it answers.
    pub fn connect<
        T: Fn(TransportStep) -> ClientResult<TransportReply>,
        L: Fn(u32, Vec<u8>) -> ClientResult<Response>,
    >(&mut self, transport: &T, link: &L) -> (result: ClientResult<ReadStateResponse>)
        requires
            forall|step: TransportStep| call_requires(*transport, (step,)),
            forall|id: u32, frame: Vec<u8>| call_requires(*link, (id, frame)),
        ensures
            connected(transport, link, old(self)@, final(self)@, result),
    {
        let ghost pre = self@;
        let plan = self.connect_plan();
        let first = if !plan.open {
            Ok(())
        } else {
            match self.create_stream(transport) {
                Err(e) => Err(e),
                Ok(_) => if plan.handshake {
                    self.open_local_port(transport)
                } else {
                    Ok(())
                },
            }
        };
        let ghost opened = self@;
        assert(transport_ready(transport, pre, opened, first));
        if let Err(e) = first {
            return Err(e);
        }
        let second = if !self.connect_plan().local_address {
            Ok(())
        } else {
            let reply = transport(TransportStep::LocalAddress);
            self.locate_source(reply)
        };
        let ghost located = self@;
        assert(address_ready(transport, opened, located, second));
        if let Err(e) = second {
            return Err(e);
        }
        let step = if self.connect_plan().start_reader {
            TransportStep::StartReader
        } else {
            TransportStep::UpdateReader
        };
        let reply = transport(step);
        let ghost answered = reply;
        let third = match reply {
            Ok(_) => {
                self.thread_started = true;
                Ok(())
            },
            Err(e) => Err(e),
        };
        let ghost attached = self@;
        assert(call_ensures(*transport, (step,), answered));
        assert(reader_ready(transport, located, attached, third));
        if let Err(e) = third {
            return Err(e);
        }
        self.read_state(link)
    }
}

/// A connect adds nothing to the caches: they are left as they were, or
/// emptied where the state request found the connection lost.
pub proof fn lemma_connect_adds_no_handles<
    T: Fn(TransportStep) -> ClientResult<TransportReply>,
    L: Fn(u32, Vec<u8>) -> ClientResult<Response>,
>(
    transport: &T,
    link: &L,
    pre: ClientView,
    post: ClientView,
    result: ClientResult<ReadStateResponse>,
)
    requires
        connected(transport, link, pre, post, result),
    ensures
        post.handles == pre.handles || post.handles == Map::<Seq<char>, u32>::empty(),
        post.notification_handles == pre.notification_handles || post.notification_handles
            == Map::<Seq<char>, u32>::empty(),
{
}

/// Handle cache coherence. When the client has taken note of a lost
/// connection or of a failed transport, both caches are empty; they are
/// still empty after the connect that follows, so that the next operation by
/// name has to ask the controller for a handle.
pub proof fn lemma_caches_empty_after_reconnect<
    T: Fn(TransportStep) -> ClientResult<TransportReply>,
    L: Fn(u32, Vec<u8>) -> ClientResult<Response>,
>(
    transport: &T,
    link: &L,
    before: ClientView,
    lost: ClientResult<Response>,
    post: ClientView,
    result: ClientResult<ReadStateResponse>,
)
    requires
        lost matches Err(e) && e.loses_connection(),
        connected(transport, link, before.settled(lost), post, result),
    ensures
        !before.settled(lost).connected,
        before.settled(lost).handles == Map::<Seq<char>, u32>::empty(),
        before.settled(lost).notification_handles == Map::<Seq<char>, u32>::empty(),
        post.handles == Map::<Seq<char>, u32>::empty(),
        post.notification_handles == Map::<Seq<char>, u32>::empty(),
{
    lemma_connect_adds_no_handles(transport, link, before.settled(lost), post, result);
}

/// Idempotent connect. After a connect that succeeded, a transport is open
/// and the reader runs: the plan of the next connect opens no transport and
/// starts no reader, and its first part changes nothing.
pub proof fn lemma_connect_is_idempotent<
    T: Fn(TransportStep) -> ClientResult<TransportReply>,
    L: Fn(u32, Vec<u8>) -> ClientResult<Response>,
>(
    transport: &T,
    link: &L,
    pre: ClientView,
    post: ClientView,
    response: ReadStateResponse,
)
    requires
        connected(transport, link, pre, post, Ok(response)),
    ensures
        post.connected,
        post.thread_started,
        !spec_connect_plan(post).open,
        !spec_connect_plan(post).handshake,
        !spec_connect_plan(post).start_reader,
        forall|next: ClientView, first: ClientResult<()>| #[trigger]
            transport_ready(transport, post, next, first) ==> next == post && first == Ok::<
                (),
                ClientError,
            >(()),
{
}

} // verus!
