//! The one mutable state of a client: disconnected, connected, handed over
//! to a web socket, or disposed. Every operation is a transition of that
//! state; what it asks of the sockets and of the callers waiting for a
//! response is handed back as a value.

use vstd::prelude::*;
use std::time::Duration;
use crate::error::{HttpParseError, MyHttpClientError};
use crate::my_http_request::MyHttpRequest;

verus! {

/// The callers waiting for a response on one connection, in the order in
/// which their requests were queued. A caller is known by its ticket.
pub struct QueueOfRequests {
    tasks: Vec<u64>,
}

impl View for QueueOfRequests {
    type V = Seq<u64>;

    closed spec fn view(&self) -> Seq<u64> {
        self.tasks@
    }
}

impl QueueOfRequests {
    /// A queue in which nobody waits.
    pub fn new() -> (res: Self)
        ensures
            res@ == Seq::<u64>::empty(),
    {
        Self { tasks: Vec::new() }
    }

    /// Queues a caller behind the others.
    pub fn push(&mut self, task: u64)
        ensures
            final(self)@ == old(self)@.push(task),
    {
        self.tasks.push(task);
    }

    /// Takes the caller that has waited longest.
    pub fn pop(&mut self) -> (res: Option<u64>)
        ensures
            old(self)@.len() == 0 ==> res is None && final(self)@ == old(self)@,
            old(self)@.len() > 0 ==> res == Some(old(self)@[0]) && final(self)@ == old(self)@.skip(
                1,
            ),
    {
        if self.tasks.len() == 0 {
            None
        } else {
            let task = self.tasks.remove(0);
            assert(self.tasks@ =~= old(self).tasks@.skip(1));
            Some(task)
        }
    }

    /// Empties the queue and hands out every caller that waited, each once
    /// and in order, to be told that the connection is lost.
    pub fn notify_connection_lost(&mut self) -> (res: Vec<u64>)
        ensures
            res@ == old(self)@,
            final(self)@ == Seq::<u64>::empty(),
    {
        let mut lost: Vec<u64> = Vec::new();
        std::mem::swap(&mut lost, &mut self.tasks);
        lost
    }
}

/// What a live connection holds.
pub struct MyHttpClientConnectionContext {
    pub queue_to_deliver: Option<Vec<u8>>,
    pub connection_id: u64,
    pub queue_of_requests: QueueOfRequests,
    pub send_to_socket_timeout: Duration,
    pub waiting_to_web_socket_upgrade: bool,
}

/// What is left of a connection that was handed over to a web socket.
pub struct WebSocketContextModel {
    pub name: String,
    pub connection_id: u64,
}

impl WebSocketContextModel {
    /// What is kept of the connection `connection_id` of the client `name`.
    pub fn new(name: String, connection_id: u64) -> (res: Self)
        ensures
            res.name == name,
            res.connection_id == connection_id,
    {
        Self { name, connection_id }
    }
}

/// The state of a client.
pub enum WritePartState {
    Connected(MyHttpClientConnectionContext),
    UpgradedToWebSocket(WebSocketContextModel),
    Disconnected,
    Disposed,
}

/// The state of a client as far as its transitions depend on it.
pub enum ConnectionModel {
    Connected {
        connection_id: u64,
        /// Bytes queued for the socket and not yet taken by the writer.
        queue_to_deliver: Option<Seq<u8>>,
        /// Tickets of the callers waiting for a response, oldest first.
        awaiters: Seq<u64>,
        /// The time that each write to the socket may take.
        send_to_socket_timeout: Duration,
        waiting_to_web_socket_upgrade: bool,
    },
    UpgradedToWebSocket { connection_id: u64 },
    Disconnected,
    Disposed,
}

/// The bytes queued for the socket, none being the same as no bytes.
pub open spec fn pending_bytes(queue: Option<Seq<u8>>) -> Seq<u8> {
    match queue {
        Some(bytes) => bytes,
        None => Seq::empty(),
    }
}

impl ConnectionModel {
    /// A connection that was just made.
    pub open spec fn fresh(connection_id: u64, send_to_socket_timeout: Duration) -> ConnectionModel {
        ConnectionModel::Connected {
            connection_id,
            queue_to_deliver: None,
            awaiters: Seq::empty(),
            send_to_socket_timeout,
            waiting_to_web_socket_upgrade: false,
        }
    }

    /// The callers that wait for a response.
    pub open spec fn awaiters(self) -> Seq<u64> {
        match self {
            ConnectionModel::Connected { awaiters, .. } => awaiters,
            _ => Seq::empty(),
        }
    }

    /// Whether this is the live connection `connection_id`.
    pub open spec fn is_connection(self, connection_id: u64) -> bool {
        self matches ConnectionModel::Connected { connection_id: id, .. } && id == connection_id
    }

    /// Whether `connection_id` is the connection in use, live or handed over
    /// to a web socket.
    pub open spec fn is_active_connection(self, connection_id: u64) -> bool {
        match self {
            ConnectionModel::Connected { connection_id: id, .. } => id == connection_id,
            ConnectionModel::UpgradedToWebSocket { connection_id: id } => id == connection_id,
            _ => false,
        }
    }

    /// Why a request cannot be queued, if it cannot.
    pub open spec fn refusal(self) -> Option<MyHttpClientError> {
        match self {
            ConnectionModel::Connected { .. } => None,
            ConnectionModel::UpgradedToWebSocket { .. } => Some(
                MyHttpClientError::UpgradedToWebSocket,
            ),
            ConnectionModel::Disconnected => Some(MyHttpClientError::Disconnected),
            ConnectionModel::Disposed => Some(MyHttpClientError::Disposed),
        }
    }

    /// The state after a request was queued: its bytes stand behind the
    /// bytes already queued, its caller behind the callers already waiting.
    /// Any state but a live connection is left as it is.
    pub open spec fn sent(self, task: u64, wire: Seq<u8>) -> ConnectionModel {
        match self {
            ConnectionModel::Connected {
                connection_id,
                queue_to_deliver,
                awaiters,
                send_to_socket_timeout,
                waiting_to_web_socket_upgrade,
            } => ConnectionModel::Connected {
                connection_id,
                queue_to_deliver: Some(pending_bytes(queue_to_deliver) + wire),
                awaiters: awaiters.push(task),
                send_to_socket_timeout,
                waiting_to_web_socket_upgrade,
            },
            other => other,
        }
    }

    /// The caller whose response is being read on `connection_id`: the one
    /// that has waited longest.
    pub open spec fn head(self, connection_id: u64) -> Option<u64> {
        if self.is_connection(connection_id) && self.awaiters().len() > 0 {
            Some(self.awaiters()[0])
        } else {
            None
        }
    }

    /// The state after the head caller of `connection_id` was taken to be
    /// given its response; with `web_socket_upgrade` the connection is also
    /// marked as being handed over.
    pub open spec fn popped(self, connection_id: u64, web_socket_upgrade: bool) -> ConnectionModel {
        match self {
            ConnectionModel::Connected {
                connection_id: id,
                queue_to_deliver,
                awaiters,
                send_to_socket_timeout,
                waiting_to_web_socket_upgrade,
            } => if id == connection_id {
                ConnectionModel::Connected {
                    connection_id: id,
                    queue_to_deliver,
                    awaiters: if awaiters.len() > 0 {
                        awaiters.skip(1)
                    } else {
                        awaiters
                    },
                    send_to_socket_timeout,
                    waiting_to_web_socket_upgrade: waiting_to_web_socket_upgrade
                        || web_socket_upgrade,
                }
            } else {
                self
            },
            other => other,
        }
    }

    /// The state after the writer took the queued bytes of `connection_id`.
    pub open spec fn flushed(self, connection_id: u64) -> ConnectionModel {
        match self {
            ConnectionModel::Connected {
                connection_id: id,
                queue_to_deliver,
                awaiters,
                send_to_socket_timeout,
                waiting_to_web_socket_upgrade,
            } => if id == connection_id {
                ConnectionModel::Connected {
                    connection_id: id,
                    queue_to_deliver: None,
                    awaiters,
                    send_to_socket_timeout,
                    waiting_to_web_socket_upgrade,
                }
            } else {
                self
            },
            other => other,
        }
    }

    /// The state after `connection_id` was ended: disconnected when it was
    /// the connection in use, and unchanged when it was not.
    pub open spec fn disconnected(self, connection_id: u64) -> ConnectionModel {
        if self.is_active_connection(connection_id) {
            ConnectionModel::Disconnected
        } else {
            self
        }
    }

    /// The callers that are told of the loss when `connection_id` is ended:
    /// all that wait, when it is the connection in use, and none when it is
    /// not.
    pub open spec fn lost_awaiters(self, connection_id: u64) -> Seq<u64> {
        if self.is_active_connection(connection_id) {
            self.awaiters()
        } else {
            Seq::empty()
        }
    }

    /// Whether the end of the read loop of `connection_id` takes the
    /// connection down: it does for the live connection, unless that is
    /// being handed over to a web socket.
    pub open spec fn read_loop_end_disconnects(self, connection_id: u64) -> bool {
        self matches ConnectionModel::Connected {
            connection_id: id,
            waiting_to_web_socket_upgrade,
            ..
        } && id == connection_id && !waiting_to_web_socket_upgrade
    }
}

impl View for WritePartState {
    type V = ConnectionModel;

    open spec fn view(&self) -> ConnectionModel {
        match self {
            WritePartState::Connected(ctx) => ConnectionModel::Connected {
                connection_id: ctx.connection_id,
                queue_to_deliver: match ctx.queue_to_deliver {
                    Some(bytes) => Some(bytes@),
                    None => None,
                },
                awaiters: ctx.queue_of_requests@,
                send_to_socket_timeout: ctx.send_to_socket_timeout,
                waiting_to_web_socket_upgrade: ctx.waiting_to_web_socket_upgrade,
            },
            WritePartState::UpgradedToWebSocket(ctx) => ConnectionModel::UpgradedToWebSocket {
                connection_id: ctx.connection_id,
            },
            WritePartState::Disconnected => ConnectionModel::Disconnected,
            WritePartState::Disposed => ConnectionModel::Disposed,
        }
    }
}

impl WritePartState {
    /// Takes the bytes queued for the socket, with the connection they
    /// belong to and the time each write may take. Nothing when no bytes are
    /// queued or no connection is live.
    pub fn get_payload_to_send(&mut self) -> (res: Option<(Vec<u8>, u64, Duration)>)
        ensures
            match old(self)@ {
                ConnectionModel::Connected {
                    connection_id,
                    queue_to_deliver: Some(bytes),
                    send_to_socket_timeout,
                    ..
                } => {
                    &&& res matches Some((payload, id, timeout))
                    &&& payload@ == bytes
                    &&& id == connection_id
                    &&& timeout == send_to_socket_timeout
                    &&& final(self)@ == old(self)@.flushed(connection_id)
                },
                _ => res is None && final(self)@ == old(self)@,
            },
    {
        match self {
            WritePartState::Connected(inner) => {
                match inner.queue_to_deliver.take() {
                    Some(payload) => Some(
                        (payload, inner.connection_id, inner.send_to_socket_timeout),
                    ),
                    None => None,
                }
            },
            _ => None,
        }
    }

    /// Whether the client was disposed.
    pub fn is_disposed(&self) -> (res: bool)
        ensures
            res == (self@ is Disposed),
    {
        match self {
            WritePartState::Disposed => true,
            _ => false,
        }
    }

    /// The live connection, or the reason why there is none.
    pub fn unwrap_as_connected_mut(&mut self) -> (res: Result<
        &mut MyHttpClientConnectionContext,
        MyHttpClientError,
    >)
        ensures
            match *old(self) {
                WritePartState::Connected(ctx) => {
                    &&& res matches Ok(inner)
                    &&& *inner == ctx
                    &&& *final(self) == WritePartState::Connected(*final(inner))
                },
                _ => {
                    &&& res matches Err(e)
                    &&& Some(e) == old(self)@.refusal()
                    &&& *final(self) == *old(self)
                },
            },
    {
        match self {
            WritePartState::Connected(inner) => Ok(inner),
            WritePartState::UpgradedToWebSocket(_) => Err(MyHttpClientError::UpgradedToWebSocket),
            WritePartState::Disconnected => Err(MyHttpClientError::Disconnected),
            WritePartState::Disposed => Err(MyHttpClientError::Disposed),
        }
    }

    /// Whether `connection_id` is the connection in use, live or handed over
    /// to a web socket.
    pub fn is_active_connection(&self, connection_id: u64) -> (res: bool)
        ensures
            res == self@.is_active_connection(connection_id),
    {
        match self {
            WritePartState::Connected(inner) => inner.connection_id == connection_id,
            WritePartState::UpgradedToWebSocket(inner) => inner.connection_id == connection_id,
            _ => false,
        }
    }
}

/// What the end of a connection asks of the rest of the client.
pub struct ConnectionLoss {
    /// The callers that waited for a response, oldest first. Each is to be
    /// told once that its request failed.
    pub awaiters: Vec<u64>,
    /// Whether a write half is left to be shut down.
    pub close_write_half: bool,
    /// Whether a connection ended at all, live or handed over to a web
    /// socket.
    pub tcp_disconnected: bool,
    /// Whether the client was disposed: the callers are then told so, and
    /// otherwise that the connection is lost.
    pub disposed: bool,
}

impl ConnectionLoss {
    /// The failure that each waiting caller is told.
    pub fn error(&self) -> (res: MyHttpClientError)
        ensures
            self.disposed ==> res is Disposed,
            !self.disposed ==> res is Disconnected,
    {
        if self.disposed {
            MyHttpClientError::Disposed
        } else {
            MyHttpClientError::Disconnected
        }
    }
}

/// What a failed read loop asks of the rest of the client.
pub struct ReadFailure {
    /// The caller whose response could not be read, with the reason it is
    /// told.
    pub failed_request: Option<(u64, MyHttpClientError)>,
    /// The end of the connection.
    pub loss: ConnectionLoss,
}

/// The state of a client together with what does not change with it: its
/// name, and whether its writer was started.
pub struct MyHttpClientInner {
    pub state: WritePartState,
    pub has_sender: bool,
    pub name: String,
}

impl View for MyHttpClientInner {
    type V = ConnectionModel;

    open spec fn view(&self) -> ConnectionModel {
        self.state@
    }
}

impl MyHttpClientInner {
    /// A client that is not connected and whose writer was not started.
    pub fn new(name: String) -> (res: Self)
        ensures
            res@ is Disconnected,
            !res.has_sender,
            res.name == name,
    {
        Self { state: WritePartState::Disconnected, has_sender: false, name }
    }

    /// Notes that the writer is started. True when it was not before, which
    /// is when it has to be started.
    pub fn set_sender(&mut self) -> (res: bool)
        ensures
            res == !old(self).has_sender,
            final(self).has_sender,
            final(self).state == old(self).state,
            final(self).name == old(self).name,
    {
        let start = !self.has_sender;
        self.has_sender = true;
        start
    }

    /// Ends whatever connection there is. The client is disposed with
    /// `disposed`, and disconnected without.
    fn process_disconnect(&mut self, disposed: bool) -> (res: ConnectionLoss)
        ensures
            res.awaiters@ == old(self)@.awaiters(),
            res.close_write_half == (old(self)@ is Connected),
            res.tcp_disconnected == (old(self)@ is Connected || old(self)@ is UpgradedToWebSocket),
            res.disposed == disposed,
            disposed ==> final(self)@ is Disposed,
            !disposed ==> final(self)@ is Disconnected,
            final(self).has_sender == old(self).has_sender,
            final(self).name == old(self).name,
    {
        let mut state = if disposed {
            WritePartState::Disposed
        } else {
            WritePartState::Disconnected
        };
        std::mem::swap(&mut state, &mut self.state);
        match state {
            WritePartState::Connected(mut ctx) => {
                let awaiters = ctx.queue_of_requests.notify_connection_lost();
                ConnectionLoss { awaiters, close_write_half: true, tcp_disconnected: true, disposed }
            },
            WritePartState::UpgradedToWebSocket(_) => ConnectionLoss {
                awaiters: Vec::new(),
                close_write_half: false,
                tcp_disconnected: true,
                disposed,
            },
            _ => ConnectionLoss {
                awaiters: Vec::new(),
                close_write_half: false,
                tcp_disconnected: false,
                disposed,
            },
        }
    }

    /// Takes a new connection into use. What was connected before is ended
    /// first.
    pub fn new_connection(&mut self, connection_id: u64, send_to_socket_timeout: Duration) -> (res:
        ConnectionLoss)
        requires
            !(old(self)@ is Disposed),
        ensures
            final(self)@ == ConnectionModel::fresh(connection_id, send_to_socket_timeout),
            res.awaiters@ == old(self)@.awaiters(),
            res.close_write_half == (old(self)@ is Connected),
            res.tcp_disconnected == (old(self)@ is Connected || old(self)@ is UpgradedToWebSocket),
            !res.disposed,
            final(self).has_sender == old(self).has_sender,
            final(self).name == old(self).name,
    {
        let loss = self.process_disconnect(false);
        self.state = WritePartState::Connected(
            MyHttpClientConnectionContext {
                queue_to_deliver: None,
                connection_id,
                queue_of_requests: QueueOfRequests::new(),
                send_to_socket_timeout,
                waiting_to_web_socket_upgrade: false,
            },
        );
        loss
    }

    /// Whether `connection_id` is the live connection.
    pub fn is_my_connection_id(&self, connection_id: u64) -> (res: bool)
        ensures
            res == self@.is_connection(connection_id),
    {
        match &self.state {
            WritePartState::Connected(context) => context.connection_id == connection_id,
            _ => false,
        }
    }

    /// Queues a request on the live connection: its bytes behind the bytes
    /// waiting to be written, its caller `task` behind the callers waiting
    /// for a response. Returns the connection, for which the writer is then
    /// to be woken. Without a live connection nothing changes and the reason
    /// is returned.
    pub fn send(&mut self, req: &MyHttpRequest, task: u64) -> (res: Result<u64, MyHttpClientError>)
        ensures
            final(self)@ == old(self)@.sent(task, req.wire()),
            final(self).has_sender == old(self).has_sender,
            final(self).name == old(self).name,
            match old(self)@ {
                ConnectionModel::Connected { connection_id, .. } => res == Ok::<
                    u64,
                    MyHttpClientError,
                >(connection_id),
                _ => res matches Err(e) && Some(e) == old(self)@.refusal(),
            },
    {
        match &mut self.state {
            WritePartState::Connected(ctx) => {
                ctx.queue_of_requests.push(task);
                let mut pending: Vec<u8> = match ctx.queue_to_deliver.take() {
                    Some(pending) => pending,
                    None => Vec::new(),
                };
                req.write_to(&mut pending);
                ctx.queue_to_deliver = Some(pending);
                Ok(ctx.connection_id)
            },
            WritePartState::UpgradedToWebSocket(_) => Err(MyHttpClientError::UpgradedToWebSocket),
            WritePartState::Disconnected => Err(MyHttpClientError::Disconnected),
            WritePartState::Disposed => Err(MyHttpClientError::Disposed),
        }
    }

    /// Hands the live connection `connection_id` over to a web socket: the
    /// caller may take the write half, and no request is accepted any more.
    /// Another connection than the live one counts as lost.
    pub fn upgrade_to_websocket(&mut self, connection_id: u64) -> (res: Result<
        (),
        MyHttpClientError,
    >)
        ensures
            final(self).has_sender == old(self).has_sender,
            final(self).name == old(self).name,
            res is Ok <==> old(self)@.is_connection(connection_id),
            res is Ok ==> final(self)@ == (ConnectionModel::UpgradedToWebSocket { connection_id }),
            res is Ok ==> (final(self).state matches WritePartState::UpgradedToWebSocket(kept)
                && kept.name@ == old(self).name@),
            res matches Err(e) ==> {
                &&& final(self)@ == old(self)@
                &&& match old(self)@ {
                    ConnectionModel::Connected { .. } => e is Disconnected,
                    _ => Some(e) == old(self)@.refusal(),
                }
            },
    {
        match &self.state {
            WritePartState::Connected(context) => {
                if context.connection_id != connection_id {
                    return Err(MyHttpClientError::Disconnected);
                }
            },
            WritePartState::UpgradedToWebSocket(_) => {
                return Err(MyHttpClientError::UpgradedToWebSocket);
            },
            WritePartState::Disconnected => {
                return Err(MyHttpClientError::Disconnected);
            },
            WritePartState::Disposed => {
                return Err(MyHttpClientError::Disposed);
            },
        }
        self.state = WritePartState::UpgradedToWebSocket(
            WebSocketContextModel::new(self.name.clone(), connection_id),
        );
        Ok(())
    }

    /// Takes the caller whose response was read on `connection_id`: the one
    /// that has waited longest. With `web_socket_upgrade` the connection is
    /// marked as being handed over, so that the end of its read loop does
    /// not take it down. Nothing, and nothing changed, for any other
    /// connection than the live one.
    pub fn pop_request(&mut self, connection_id: u64, web_socket_upgrade: bool) -> (res: Option<u64>)
        ensures
            res == old(self)@.head(connection_id),
            final(self)@ == old(self)@.popped(connection_id, web_socket_upgrade),
            final(self).has_sender == old(self).has_sender,
            final(self).name == old(self).name,
    {
        match &mut self.state {
            WritePartState::Connected(context) => {
                if context.connection_id != connection_id {
                    return None;
                }
                if web_socket_upgrade {
                    context.waiting_to_web_socket_upgrade = true;
                }
                context.queue_of_requests.pop()
            },
            _ => None,
        }
    }

    /// Takes the bytes that wait to be written on `connection_id`, with the
    /// time each write may take. Nothing, and nothing changed, when that is
    /// not the live connection or no bytes wait.
    pub fn flush(&mut self, connection_id: u64) -> (res: Option<(Vec<u8>, Duration)>)
        ensures
            final(self).has_sender == old(self).has_sender,
            final(self).name == old(self).name,
            match old(self)@ {
                ConnectionModel::Connected {
                    connection_id: id,
                    queue_to_deliver: Some(bytes),
                    send_to_socket_timeout,
                    ..
                } => if id == connection_id {
                    &&& res matches Some((payload, timeout))
                    &&& payload@ == bytes
                    &&& timeout == send_to_socket_timeout
                    &&& final(self)@ == old(self)@.flushed(connection_id)
                } else {
                    res is None && final(self)@ == old(self)@
                },
                _ => res is None && final(self)@ == old(self)@,
            },
    {
        if !self.is_my_connection_id(connection_id) {
            return None;
        }
        match self.state.get_payload_to_send() {
            Some((payload, _, timeout)) => Some((payload, timeout)),
            None => None,
        }
    }

    /// Ends the live connection `connection_id` after a write to it failed
    /// or took too long. Nothing happens for any other connection.
    pub fn write_failed(&mut self, connection_id: u64) -> (res: ConnectionLoss)
        ensures
            final(self).has_sender == old(self).has_sender,
            !res.disposed,
            res.tcp_disconnected == res.close_write_half,
            old(self)@.is_connection(connection_id) ==> {
                &&& final(self)@ is Disconnected
                &&& res.awaiters@ == old(self)@.awaiters()
                &&& res.close_write_half
            },
            !old(self)@.is_connection(connection_id) ==> {
                &&& final(self)@ == old(self)@
                &&& res.awaiters@ == Seq::<u64>::empty()
                &&& !res.close_write_half
            },
    {
        if !self.is_my_connection_id(connection_id) {
            return ConnectionLoss { awaiters: Vec::new(), close_write_half: false, tcp_disconnected: false, disposed: false };
        }
        self.process_disconnect(false)
    }

    /// Ends the connection `connection_id` when it is the one in use, live
    /// or handed over to a web socket: every caller that waited is handed
    /// out, once. Nothing happens for any other connection.
    pub fn disconnect(&mut self, connection_id: u64) -> (res: ConnectionLoss)
        ensures
            final(self).has_sender == old(self).has_sender,
            !res.disposed,
            final(self)@ == old(self)@.disconnected(connection_id),
            res.awaiters@ == old(self)@.lost_awaiters(connection_id),
            res.tcp_disconnected == old(self)@.is_active_connection(connection_id),
            old(self)@.is_active_connection(connection_id) ==> {
                &&& final(self)@ is Disconnected
                &&& res.awaiters@ == old(self)@.awaiters()
                &&& res.close_write_half == (old(self)@ is Connected)
            },
            !old(self)@.is_active_connection(connection_id) ==> {
                &&& final(self)@ == old(self)@
                &&& res.awaiters@ == Seq::<u64>::empty()
                &&& !res.close_write_half
            },
    {
        if !self.state.is_active_connection(connection_id) {
            return ConnectionLoss { awaiters: Vec::new(), close_write_half: false, tcp_disconnected: false, disposed: false };
        }
        self.process_disconnect(false)
    }

    /// Ends the connection `connection_id` when its read loop has ended,
    /// unless the connection is being handed over to a web socket or is no
    /// longer the live one.
    pub fn read_loop_stopped(&mut self, connection_id: u64) -> (res: ConnectionLoss)
        ensures
            final(self).has_sender == old(self).has_sender,
            !res.disposed,
            res.tcp_disconnected == res.close_write_half,
            old(self)@.read_loop_end_disconnects(connection_id) ==> {
                &&& final(self)@ is Disconnected
                &&& res.awaiters@ == old(self)@.awaiters()
                &&& res.close_write_half
            },
            !old(self)@.read_loop_end_disconnects(connection_id) ==> {
                &&& final(self)@ == old(self)@
                &&& res.awaiters@ == Seq::<u64>::empty()
                &&& !res.close_write_half
            },
    {
        let disconnect = match &self.state {
            WritePartState::Connected(ctx) => {
                if ctx.waiting_to_web_socket_upgrade {
                    false
                } else {
                    ctx.connection_id == connection_id
                }
            },
            _ => false,
        };
        if disconnect {
            self.process_disconnect(false)
        } else {
            ConnectionLoss { awaiters: Vec::new(), close_write_half: false, tcp_disconnected: false, disposed: false }
        }
    }

    /// Ends the connection `connection_id` after its read loop failed. When
    /// the response could not be understood, the caller it was meant for is
    /// taken out first and told the reason; every other caller that waited
    /// learns that the connection is lost.
    pub fn read_loop_failed(&mut self, connection_id: u64, err: &HttpParseError) -> (res:
        ReadFailure)
        ensures
            final(self).has_sender == old(self).has_sender,
            (err is InvalidHttpPayload) ==> {
                &&& old(self)@.head(connection_id) is Some <==> res.failed_request is Some
                &&& res.failed_request matches Some((task, reason)) ==> {
                    &&& Some(task) == old(self)@.head(connection_id)
                    &&& reason matches MyHttpClientError::CanNotExecuteRequest(text)
                    &&& err matches HttpParseError::InvalidHttpPayload(why)
                    &&& text@ == why@
                }
                &&& old(self)@.is_active_connection(connection_id) ==> res.loss.awaiters@ == old(self)@.popped(connection_id, false).awaiters()
            },
            !(err is InvalidHttpPayload) ==> {
                &&& res.failed_request is None
                &&& old(self)@.is_active_connection(connection_id) ==> res.loss.awaiters@ == old(self)@.awaiters()
            },
            old(self)@.is_active_connection(connection_id) ==> final(self)@ is Disconnected,
            !old(self)@.is_active_connection(connection_id) ==> final(self)@ == old(self)@
                && res.loss.awaiters@ == Seq::<u64>::empty(),
            !res.loss.disposed,
    {
        let failed_request = match err.as_invalid_payload() {
            Some(reason) => {
                match self.pop_request(connection_id, false) {
                    Some(task) => Some(
                        (task, MyHttpClientError::CanNotExecuteRequest(reason.to_owned())),
                    ),
                    None => None,
                }
            },
            None => None,
        };
        let loss = self.disconnect(connection_id);
        ReadFailure { failed_request, loss }
    }

    /// Disposes the client: whatever connection there is ends, every caller
    /// that waited is handed out to be told so, and no request is accepted
    /// any more. The result tells the callers that waited and, second,
    /// whether a writer runs that is to be closed.
    pub fn dispose(&mut self) -> (res: (ConnectionLoss, bool))
        ensures
            final(self)@ is Disposed,
            res.0.awaiters@ == old(self)@.awaiters(),
            res.0.close_write_half == (old(self)@ is Connected),
            res.0.tcp_disconnected == (old(self)@ is Connected || old(self)@ is UpgradedToWebSocket),
            res.0.disposed,
            res.1 == old(self).has_sender,
    {
        let loss = self.process_disconnect(true);
        (loss, self.has_sender)
    }
}

/// Requests on one connection are answered in the order in which they were
/// queued: of two requests queued one after the other, the first response
/// read goes to the caller of the first and the second to the caller of the
/// second, behind the callers that waited before them; and the bytes of the
/// first stand before the bytes of the second.
pub proof fn lemma_responses_in_submission_order(
    m: ConnectionModel,
    connection_id: u64,
    first: u64,
    first_wire: Seq<u8>,
    second: u64,
    second_wire: Seq<u8>,
)
    requires
        m.is_connection(connection_id),
    ensures
        ({
            let queued = m.sent(first, first_wire).sent(second, second_wire);
            &&& queued.awaiters() == m.awaiters().push(first).push(second)
            &&& queued matches ConnectionModel::Connected { queue_to_deliver, .. }
                && pending_bytes(queue_to_deliver) == pending_bytes(m->queue_to_deliver)
                + first_wire + second_wire
            &&& m.awaiters().len() == 0 ==> {
                &&& queued.head(connection_id) == Some(first)
                &&& queued.popped(connection_id, false).head(connection_id) == Some(second)
                &&& queued.popped(connection_id, false).popped(connection_id, false).head(
                    connection_id,
                ) is None
            }
        }),
{
    let queued = m.sent(first, first_wire).sent(second, second_wire);
    assert(pending_bytes(queued->queue_to_deliver) =~= pending_bytes(m->queue_to_deliver)
        + first_wire + second_wire);
    if m.awaiters().len() == 0 {
        let once = queued.popped(connection_id, false);
        assert(once.awaiters() =~= seq![second]);
    }
}

/// A lost connection is told to each waiting caller exactly once, and the
/// next request finds its way. When the live connection is ended, the
/// callers handed out are exactly those that waited, in order; none is left
/// behind, so ending the connection again hands out no one; a request is
/// then refused with `Disconnected`, the one error after which the client
/// connects anew; and on the connection made then the request is queued as
/// the first.
pub proof fn lemma_disconnect_then_retry(
    m: ConnectionModel,
    connection_id: u64,
    next_connection_id: u64,
    timeout: Duration,
    task: u64,
    wire: Seq<u8>,
)
    requires
        m.is_connection(connection_id),
    ensures
        m.lost_awaiters(connection_id) == m.awaiters(),
        m.disconnected(connection_id) is Disconnected,
        m.disconnected(connection_id).awaiters() == Seq::<u64>::empty(),
        m.disconnected(connection_id).lost_awaiters(connection_id) == Seq::<u64>::empty(),
        m.disconnected(connection_id).sent(task, wire) == m.disconnected(connection_id),
        m.disconnected(connection_id).refusal() == Some(MyHttpClientError::Disconnected),
        ConnectionModel::fresh(next_connection_id, timeout).refusal() is None,
        ConnectionModel::fresh(next_connection_id, timeout).sent(task, wire).head(next_connection_id)
            == Some(task),
        pending_bytes(
            ConnectionModel::fresh(next_connection_id, timeout).sent(task, wire)->queue_to_deliver,
        ) == wire,
{
    let again = ConnectionModel::fresh(next_connection_id, timeout).sent(task, wire);
    assert(pending_bytes(again->queue_to_deliver) =~= wire);
}

} // verus!
