//! The server side: the immutable service registry, and the broker that
//! dispatches requests to handlers, tracks cancellable executions, fans
//! publications out to subscribers, and serializes responses back onto the
//! wire.
//!
//! Handlers run outside this crate: the broker returns [`ServerAction`]
//! values — dispatch this handler, respond with these bytes, push this
//! publication — and the runtime performs them, posting each handler's
//! completion back through [`ServerBroker::process_result`].

use vstd::prelude::*;
use vstd::string::StrSliceExecFns;

use crate::codec::{spec_body_frame, spec_header_frame, CodecWriteHalf};
use crate::error::Error;
use crate::frame::spec_encode_frame;
use crate::message::{spec_err_msg_of, spec_sendable, ErrorMessage, MessageId};
use crate::protocol::{
    err_msg_wf, marshal_err_msg, spec_marshal_err_msg, Header, HeaderView,
};
use crate::registry::{Registry, TopicMap};

verus! {

/// One in-flight execution, as the broker tracks it.
pub struct Execution {
    /// The request's timeout in milliseconds; the runtime arms the timer.
    pub timeout_millis: u64,
}

/// What the broker asks the runtime to do.
pub enum ServerAction {
    /// Run the handler of `service`.`method` on the body, and post the
    /// outcome back through [`ServerBroker::process_result`].
    Dispatch {
        /// The connection the request came in on.
        conn: u64,
        /// The request's id.
        id: MessageId,
        /// The service name, before the last `.`.
        service: String,
        /// The method name, after the last `.`.
        method: String,
        /// The serialized arguments.
        body: Vec<u8>,
        /// The request's timeout in milliseconds.
        timeout_millis: u64,
    },
    /// Put a response on `conn`'s outbound queue, through
    /// [`send_response`].
    Respond {
        /// The connection to answer on.
        conn: u64,
        /// The id the response answers.
        id: MessageId,
        /// The result body, or the error to send.
        result: Result<Vec<u8>, Error>,
    },
    /// Push a publication into a subscriber's outbound queue.
    Publication {
        /// The subscriber's connection.
        conn: u64,
        /// The publish message's id.
        id: MessageId,
        /// The topic published to.
        topic: String,
        /// The published value's bytes.
        body: Vec<u8>,
    },
    /// Acknowledge a publish or subscribe message to its sender.
    Ack {
        /// The connection to acknowledge on.
        conn: u64,
        /// The id being acknowledged.
        id: MessageId,
    },
    /// Fire the cancellation signal of an execution, for cooperating
    /// handlers to observe.
    CancelSignal {
        /// The connection the execution belongs to.
        conn: u64,
        /// The cancelled id.
        id: MessageId,
    },
}

/// The key an execution is registered under: connection and id packed into
/// one word.
pub open spec fn spec_exec_key(conn: u64, id: MessageId) -> u64
    recommends
        conn <= 0xFFFF_FFFF,
{
    (conn * 0x10000 + id) as u64
}

/// The index of the last `.` in `s`, or -1 when there is none.
pub open spec fn spec_rfind_dot(s: Seq<char>) -> int
    decreases s.len(),
{
    if s.len() == 0 {
        -1
    } else if s[s.len() - 1] == '.' {
        s.len() - 1
    } else {
        spec_rfind_dot(s.drop_last())
    }
}

/// Whether a method table holds the method `m`.
pub open spec fn spec_has_method(methods: Seq<String>, m: Seq<char>) -> bool {
    exists|i: int| 0 <= i < methods.len() && methods[i]@ == m
}

/// Where a service-method string routes: the split is on the last `.`.
pub enum RouteDecision {
    /// No `.` at all: answered with `MethodNotFound`, touching no handler.
    NoMethodSeparator,
    /// No service of that name: answered with `ServiceNotFound`.
    UnknownService,
    /// The service has no method of that name: answered with
    /// `MethodNotFound`.
    UnknownMethod,
    /// A handler exists: the request is dispatched to it.
    Dispatch(Seq<char>, Seq<char>),
}

/// Routes a service-method string against a service registry.
pub open spec fn spec_route(services: Map<Seq<char>, Vec<String>>, sm: Seq<char>) -> RouteDecision {
    let dot = spec_rfind_dot(sm);
    if dot < 0 {
        RouteDecision::NoMethodSeparator
    } else {
        let service = sm.take(dot);
        let method = sm.skip(dot + 1);
        if !services.dom().contains(service) {
            RouteDecision::UnknownService
        } else if !spec_has_method(services[service]@, method) {
            RouteDecision::UnknownMethod
        } else {
            RouteDecision::Dispatch(service, method)
        }
    }
}

/// Finds the last `.` of `s`.
fn rfind_dot(s: &String) -> (r: Option<usize>)
    ensures
        match r {
            Some(i) => spec_rfind_dot(s@) == i && i < s@.len(),
            None => spec_rfind_dot(s@) == -1,
        },
{
    let n = s.as_str().unicode_len();
    proof {
        assert(s@.take(n as int) =~= s@);
    }
    let mut i: usize = n;
    while i > 0
        invariant
            i <= n,
            n == s@.len(),
            spec_rfind_dot(s@) == spec_rfind_dot(s@.take(i as int)),
        decreases i,
    {
        let c = s.as_str().get_char(i - 1);
        proof {
            assert(s@.take(i as int).last() == s@[i as int - 1]);
        }
        if c == '.' {
            return Some(i - 1);
        }
        proof {
            assert(s@.take(i as int).drop_last() =~= s@.take(i as int - 1));
        }
        i = i - 1;
    }
    proof {
        assert(s@.take(0) =~= Seq::<char>::empty());
    }
    None
}

/// A copy of byte buffer contents.
fn clone_bytes(v: &Vec<u8>) -> (r: Vec<u8>)
    ensures
        r@ == v@,
{
    let mut out: Vec<u8> = Vec::new();
    let n = v.len();
    let mut i: usize = 0;
    while i < n
        invariant
            i <= n,
            n == v@.len(),
            out@ =~= v@.subrange(0, i as int),
        decreases n - i,
    {
        out.push(v[i]);
        i = i + 1;
    }
    proof {
        assert(out@ =~= v@);
    }
    out
}

/// The path token appended to a base location to reach the RPC endpoint
/// of an HTTP host.
pub const DEFAULT_RPC_PATH: &'static str = "_rpc";

/// The RPC endpoint under a base location ending in `/`: the base with
/// [`DEFAULT_RPC_PATH`] appended.
pub fn rpc_path(base: &str) -> (r: String)
    ensures
        r@ == base@ + "_rpc"@,
{
    let mut s = base.to_owned();
    vstd::string::StringExecFns::append(&mut s, "_rpc");
    s
}

/// What the reader hands the server broker for each inbound message.
pub enum ServerBrokerItem {
    /// A request to dispatch.
    Request {
        /// The request's id.
        id: MessageId,
        /// The service and method, as `"{Service}.{method}"`.
        service_method: String,
        /// The request's timeout in milliseconds.
        timeout_millis: u64,
        /// The serialized arguments.
        body: Vec<u8>,
    },
    /// The client cancelled an execution.
    Cancel(MessageId),
    /// A value published to a topic.
    Publish {
        /// The publish message's id.
        id: MessageId,
        /// The topic published to.
        topic: String,
        /// The published value's bytes.
        body: Vec<u8>,
    },
    /// A subscription to a topic.
    Subscribe {
        /// The subscribe message's id.
        id: MessageId,
        /// The topic subscribed to.
        topic: String,
    },
    /// An unsubscription from a topic.
    Unsubscribe {
        /// The unsubscribe message's id.
        id: MessageId,
        /// The topic unsubscribed from.
        topic: String,
    },
    /// An acknowledgement.
    Ack(MessageId),
    /// The transport ended.
    Stop,
    /// A message the server accepts and drops, the reserved variants
    /// among them.
    Ignored(MessageId),
}

/// The mathematical value of a server reader item.
pub enum ServerBrokerItemView {
    /// A request to dispatch.
    Request { id: MessageId, service_method: Seq<char>, timeout_millis: u64, body: Seq<u8> },
    /// A cancellation.
    Cancel(MessageId),
    /// A publication.
    Publish { id: MessageId, topic: Seq<char>, body: Seq<u8> },
    /// A subscription.
    Subscribe { id: MessageId, topic: Seq<char> },
    /// An unsubscription.
    Unsubscribe { id: MessageId, topic: Seq<char> },
    /// An acknowledgement.
    Ack(MessageId),
    /// The transport ended.
    Stop,
    /// A message the server accepts and drops.
    Ignored(MessageId),
}

impl View for ServerBrokerItem {
    type V = ServerBrokerItemView;

    open spec fn view(&self) -> ServerBrokerItemView {
        match self {
            ServerBrokerItem::Request { id, service_method, timeout_millis, body } =>
                ServerBrokerItemView::Request {
                id: *id,
                service_method: service_method@,
                timeout_millis: *timeout_millis,
                body: body@,
            },
            ServerBrokerItem::Cancel(id) => ServerBrokerItemView::Cancel(*id),
            ServerBrokerItem::Publish { id, topic, body } => ServerBrokerItemView::Publish {
                id: *id,
                topic: topic@,
                body: body@,
            },
            ServerBrokerItem::Subscribe { id, topic } => ServerBrokerItemView::Subscribe {
                id: *id,
                topic: topic@,
            },
            ServerBrokerItem::Unsubscribe { id, topic } => ServerBrokerItemView::Unsubscribe {
                id: *id,
                topic: topic@,
            },
            ServerBrokerItem::Ack(id) => ServerBrokerItemView::Ack(*id),
            ServerBrokerItem::Stop => ServerBrokerItemView::Stop,
            ServerBrokerItem::Ignored(id) => ServerBrokerItemView::Ignored(*id),
        }
    }
}

/// Which broker item one inbound message becomes at the server. The
/// reserved `Produce`, `Consume` and `Ext` messages are accepted and
/// dropped.
pub open spec fn spec_classify_server(h: HeaderView, body: Seq<u8>) -> ServerBrokerItemView {
    match h {
        HeaderView::Request { id, service_method, timeout_millis } => ServerBrokerItemView::Request {
            id,
            service_method,
            timeout_millis,
            body,
        },
        HeaderView::Cancel(id) => ServerBrokerItemView::Cancel(id),
        HeaderView::Publish { id, topic } => ServerBrokerItemView::Publish { id, topic, body },
        HeaderView::Subscribe { id, topic } => ServerBrokerItemView::Subscribe { id, topic },
        HeaderView::Unsubscribe { id, topic } => ServerBrokerItemView::Unsubscribe { id, topic },
        HeaderView::Ack(id) => ServerBrokerItemView::Ack(id),
        _ => ServerBrokerItemView::Ignored(crate::protocol::spec_header_id(h)),
    }
}

/// Single owner of a connection's codec read half on the server: turns
/// inbound pairs of frames into typed broker items.
pub struct ServerReader {
    /// The read half this reader owns.
    pub reader: crate::codec::CodecReadHalf,
}

impl ServerReader {
    /// Reads and classifies the next logical message.
    ///
    /// `None` means no whole message is buffered yet: feed more bytes and
    /// come back. An error means the stream is corrupt.
    pub fn op(&mut self) -> (r: Option<Result<ServerBrokerItem, Error>>)
        requires
            old(self).reader.wf(),
        ensures
            final(self).reader.wf(),
            !crate::codec::spec_message_available(old(self).reader.remaining()) ==> (r is None
                && *final(self) == *old(self)),
            crate::codec::spec_message_available(old(self).reader.remaining())
                ==> match crate::codec::spec_next_message(old(self).reader.remaining()) {
                Some((h, b, c)) => final(self).reader.remaining()
                    == old(self).reader.remaining().skip(c) && (r matches Some(res)
                    && res matches Ok(item) && item@ == spec_classify_server(h, b)),
                None => r matches Some(res) && res matches Err(e) && e is ParseError,
            },
    {
        let ghost s0 = self.reader.remaining();
        if !self.reader.message_available() {
            return None;
        }
        proof {
            crate::frame::lemma_parse_frame_size(s0);
        }
        let header = match self.reader.read_header() {
            None => {
                proof {
                    assert(false);
                }
                return None;
            },
            Some(Err(e)) => {
                // Keep the stream aligned: the message's body frame is
                // consumed too, and the reader can continue.
                let _ = self.reader.read_body();
                return Some(Err(e));
            },
            Some(Ok(h)) => h,
        };
        let ghost c1 = crate::frame::spec_parse_frame(s0)->Some_0.1;
        proof {
            crate::frame::lemma_parse_frame_size(s0.skip(c1));
        }
        let body = match self.reader.read_body() {
            None => {
                proof {
                    assert(false);
                }
                return None;
            },
            Some(Err(e)) => {
                return Some(Err(e));
            },
            Some(Ok(b)) => b,
        };
        proof {
            let c2 = crate::frame::spec_parse_frame(s0.skip(c1))->Some_0.1;
            assert(self.reader.remaining() =~= s0.skip(c1 + c2));
        }
        let item = match header {
            Header::Request { id, service_method, timeout_millis } => ServerBrokerItem::Request {
                id,
                service_method,
                timeout_millis,
                body,
            },
            Header::Cancel(id) => ServerBrokerItem::Cancel(id),
            Header::Publish { id, topic } => ServerBrokerItem::Publish { id, topic, body },
            Header::Subscribe { id, topic } => ServerBrokerItem::Subscribe { id, topic },
            Header::Unsubscribe { id, topic } => ServerBrokerItem::Unsubscribe { id, topic },
            Header::Ack(id) => ServerBrokerItem::Ack(id),
            other => ServerBrokerItem::Ignored(crate::message::Metadata::get_id(&other)),
        };
        Some(Ok(item))
    }
}

/// Collects the registered services: names to method tables. Built once,
/// then read-only and shared by every connection's broker.
pub struct ServerBuilder {
    /// Service name to its method names.
    pub services: TopicMap<Vec<String>>,
}

impl ServerBuilder {
    /// Registers a service under its name with its method table, replacing
    /// a service of the same name.
    pub fn register(self, name: String, methods: Vec<String>) -> (r: Self)
        requires
            self.services.wf(),
        ensures
            r.services.wf(),
            r.services@ == self.services@.insert(name@, methods),
    {
        let mut b = self;
        b.services.insert(name, methods);
        b
    }

    /// Finishes the build: a broker with these services, no in-flight
    /// execution, and no subscriber.
    pub fn build(self) -> (r: ServerBroker)
        requires
            self.services.wf(),
        ensures
            r.wf(),
            r.services@ == self.services@,
            r.executions@ == Map::<u64, Execution>::empty(),
            r.subscriptions@ == Map::<Seq<char>, Vec<u64>>::empty(),
    {
        ServerBroker {
            services: self.services,
            executions: Registry::new(),
            subscriptions: TopicMap::new(),
        }
    }
}

/// The server-side broker: dispatches requests, tracks cancellable
/// executions, and routes publications.
pub struct ServerBroker {
    /// Service name to its method names; immutable after build.
    pub services: TopicMap<Vec<String>>,
    /// In-flight executions, keyed by connection and id.
    pub executions: Registry<Execution>,
    /// Topic to the connections subscribed to it.
    pub subscriptions: TopicMap<Vec<u64>>,
}

impl ServerBroker {
    /// Starts collecting services.
    pub fn builder() -> (r: ServerBuilder)
        ensures
            r.services.wf(),
            r.services@ == Map::<Seq<char>, Vec<String>>::empty(),
    {
        ServerBuilder { services: TopicMap::new() }
    }

    /// The registries are well formed.
    pub open spec fn wf(self) -> bool {
        &&& self.services.wf()
        &&& self.executions.wf()
        &&& self.subscriptions.wf()
    }

    /// The subscriber list of `topic`, or empty.
    pub open spec fn spec_subscribers(self, topic: Seq<char>) -> Seq<u64> {
        if self.subscriptions@.dom().contains(topic) {
            self.subscriptions@[topic]@
        } else {
            Seq::<u64>::empty()
        }
    }

    /// Decides one inbound request.
    ///
    /// The service-method string splits at its last `.`; a missing `.`
    /// answers `MethodNotFound` without touching any handler, an unknown
    /// service answers `ServiceNotFound`, an unknown method answers
    /// `MethodNotFound`. Exactly when a handler exists, the execution is
    /// registered — so it can be cancelled or timed out — and the request
    /// is dispatched to the handler.
    pub fn process_request(
        &mut self,
        conn: u64,
        id: MessageId,
        service_method: &String,
        timeout_millis: u64,
        body: Vec<u8>,
    ) -> (r: ServerAction)
        requires
            old(self).wf(),
            conn <= 0xFFFF_FFFF,
        ensures
            final(self).wf(),
            final(self).services@ == old(self).services@,
            final(self).subscriptions@ == old(self).subscriptions@,
            match spec_route(old(self).services@, service_method@) {
                RouteDecision::NoMethodSeparator => final(self).executions@ == old(
                    self,
                ).executions@ && (r matches ServerAction::Respond { conn: c, id: i, result } && c
                    == conn && i == id && result == Result::<Vec<u8>, Error>::Err(
                    Error::MethodNotFound,
                )),
                RouteDecision::UnknownService => final(self).executions@ == old(self).executions@
                    && (r matches ServerAction::Respond { conn: c, id: i, result } && c == conn
                    && i == id && result == Result::<Vec<u8>, Error>::Err(Error::ServiceNotFound)),
                RouteDecision::UnknownMethod => final(self).executions@ == old(self).executions@
                    && (r matches ServerAction::Respond { conn: c, id: i, result } && c == conn
                    && i == id && result == Result::<Vec<u8>, Error>::Err(Error::MethodNotFound)),
                RouteDecision::Dispatch(svc, m) => final(self).executions@ == old(
                    self,
                ).executions@.insert(spec_exec_key(conn, id), Execution { timeout_millis }) && (
                r matches ServerAction::Dispatch {
                    conn: c,
                    id: i,
                    service,
                    method,
                    body: b,
                    timeout_millis: t,
                } && c == conn && i == id && service@ == svc && method@ == m && b@ == body@ && t
                    == timeout_millis),
            },
    {
        let dot = match rfind_dot(service_method) {
            None => {
                return ServerAction::Respond { conn, id, result: Err(Error::MethodNotFound) };
            },
            Some(i) => i,
        };
        let n = service_method.as_str().unicode_len();
        let service_str = service_method.as_str().substring_char(0, dot);
        let method_str = service_method.as_str().substring_char(dot + 1, n);
        proof {
            assert(service_str@ =~= service_method@.take(dot as int));
            assert(method_str@ =~= service_method@.skip(dot as int + 1));
        }
        let service = service_str.to_owned();
        let method = method_str.to_owned();
        let methods = match self.services.get(&service) {
            None => {
                return ServerAction::Respond { conn, id, result: Err(Error::ServiceNotFound) };
            },
            Some(ms) => ms,
        };
        let mut found = false;
        let k = methods.len();
        let mut j: usize = 0;
        while j < k
            invariant
                j <= k,
                k == methods@.len(),
                found <==> exists|i: int| 0 <= i < j && methods@[i]@ == method@,
            decreases k - j,
        {
            if methods[j] == method {
                found = true;
                proof {
                    assert(methods@[j as int]@ == method@);
                }
            }
            j = j + 1;
        }
        if !found {
            return ServerAction::Respond { conn, id, result: Err(Error::MethodNotFound) };
        }
        self.executions.insert(conn * 0x10000 + id as u64, Execution { timeout_millis });
        ServerAction::Dispatch { conn, id, service, method, body, timeout_millis }
    }

    /// Settles a handler's completion.
    ///
    /// Exactly when the execution is still registered — not cancelled, not
    /// timed out — its entry leaves and a response goes back: the body on
    /// success, with a handler's `ParseError` translated to
    /// `InvalidArgument` first. A completion whose execution is gone is
    /// discarded: the client hears nothing.
    pub fn process_result(&mut self, conn: u64, id: MessageId, result: Result<Vec<u8>, Error>) -> (r:
        Option<ServerAction>)
        requires
            old(self).wf(),
            conn <= 0xFFFF_FFFF,
        ensures
            final(self).wf(),
            final(self).services@ == old(self).services@,
            final(self).subscriptions@ == old(self).subscriptions@,
            final(self).executions@ == old(self).executions@.remove(spec_exec_key(conn, id)),
            (r is Some) == old(self).executions@.dom().contains(spec_exec_key(conn, id)),
            match r {
                Some(action) => action matches ServerAction::Respond { conn: c, id: i, result: res }
                    && c == conn && i == id && res == (match result {
                    Ok(b) => Result::<Vec<u8>, Error>::Ok(b),
                    Err(e) => if e is ParseError {
                        Result::<Vec<u8>, Error>::Err(Error::InvalidArgument)
                    } else {
                        Result::<Vec<u8>, Error>::Err(e)
                    },
                }),
                None => true,
            },
    {
        match self.executions.remove(conn * 0x10000 + id as u64) {
            None => None,
            Some(_) => {
                let translated = match result {
                    Ok(b) => Ok(b),
                    Err(e) => match e {
                        Error::ParseError(_) => Err(Error::InvalidArgument),
                        other => Err(other),
                    },
                };
                Some(ServerAction::Respond { conn, id, result: translated })
            },
        }
    }

    /// Handles a cancellation from the client: the execution's entry
    /// leaves, so its eventual completion is discarded and no response is
    /// emitted, and — exactly when it was still registered — its
    /// cancellation signal fires for cooperating handlers.
    pub fn process_cancel(&mut self, conn: u64, id: MessageId) -> (r: Option<ServerAction>)
        requires
            old(self).wf(),
            conn <= 0xFFFF_FFFF,
        ensures
            final(self).wf(),
            final(self).services@ == old(self).services@,
            final(self).subscriptions@ == old(self).subscriptions@,
            final(self).executions@ == old(self).executions@.remove(spec_exec_key(conn, id)),
            (r is Some) == old(self).executions@.dom().contains(spec_exec_key(conn, id)),
            match r {
                Some(action) => action matches ServerAction::CancelSignal { conn: c, id: i } && c
                    == conn && i == id,
                None => true,
            },
    {
        match self.executions.remove(conn * 0x10000 + id as u64) {
            None => None,
            Some(_) => Some(ServerAction::CancelSignal { conn, id }),
        }
    }

    /// Handles a server-side timeout firing: exactly when the execution is
    /// still registered, its entry leaves, its signal fires, and the
    /// client is answered with the reserved timeout execution error.
    pub fn process_timeout(&mut self, conn: u64, id: MessageId) -> (r: Option<ServerAction>)
        requires
            old(self).wf(),
            conn <= 0xFFFF_FFFF,
        ensures
            final(self).wf(),
            final(self).services@ == old(self).services@,
            final(self).subscriptions@ == old(self).subscriptions@,
            final(self).executions@ == old(self).executions@.remove(spec_exec_key(conn, id)),
            (r is Some) == old(self).executions@.dom().contains(spec_exec_key(conn, id)),
            match r {
                Some(action) => action matches ServerAction::Respond { conn: c, id: i, result }
                    && c == conn && i == id && (result matches Err(e) && e@
                    == crate::error::ErrorView::ExecutionError("RPC_TASK_TIMEOUT"@)),
                None => true,
            },
    {
        match self.executions.remove(conn * 0x10000 + id as u64) {
            None => None,
            Some(_) => Some(
                ServerAction::Respond {
                    conn,
                    id,
                    result: Err(Error::ExecutionError("RPC_TASK_TIMEOUT".to_string())),
                },
            ),
        }
    }

    /// Fans a publication out: one push to every subscriber of the topic,
    /// in subscription order, then exactly one acknowledgement to the
    /// publisher.
    pub fn process_publish(&self, conn: u64, id: MessageId, topic: &String, body: &Vec<u8>) -> (r:
        Vec<ServerAction>)
        requires
            self.wf(),
        ensures
            r@.len() == self.spec_subscribers(topic@).len() + 1,
            forall|i: int|
                0 <= i < self.spec_subscribers(topic@).len() ==> match #[trigger] r@[i] {
                    ServerAction::Publication { conn: c, id: i2, topic: t, body: b } => c
                        == self.spec_subscribers(topic@)[i] && i2 == id && t@ == topic@ && b@
                        == body@,
                    _ => false,
                },
            match r@[r@.len() - 1] {
                ServerAction::Ack { conn: c, id: i } => c == conn && i == id,
                _ => false,
            },
    {
        let mut out: Vec<ServerAction> = Vec::new();
        match self.subscriptions.get(topic) {
            None => {},
            Some(subs) => {
                let n = subs.len();
                let mut i: usize = 0;
                while i < n
                    invariant
                        i <= n,
                        n == self.spec_subscribers(topic@).len(),
                        subs@ == self.spec_subscribers(topic@),
                        out@.len() == i,
                        forall|j: int|
                            0 <= j < i ==> match #[trigger] out@[j] {
                                ServerAction::Publication { conn: c, id: i2, topic: t, body: b } =>
                                    c == self.spec_subscribers(topic@)[j] && i2 == id && t@
                                    == topic@ && b@ == body@,
                                _ => false,
                            },
                    decreases n - i,
                {
                    out.push(
                        ServerAction::Publication {
                            conn: subs[i],
                            id,
                            topic: topic.clone(),
                            body: clone_bytes(body),
                        },
                    );
                    i = i + 1;
                }
            },
        }
        out.push(ServerAction::Ack { conn, id });
        out
    }

    /// Registers `conn` as a subscriber of the topic, once — a repeated
    /// subscribe changes nothing — and acknowledges the subscribe message.
    pub fn process_subscribe(&mut self, conn: u64, id: MessageId, topic: String) -> (r:
        ServerAction)
        requires
            old(self).wf(),
        ensures
            final(self).wf(),
            final(self).services@ == old(self).services@,
            final(self).executions@ == old(self).executions@,
            final(self).subscriptions@.dom() == old(self).subscriptions@.dom().insert(topic@),
            final(self).spec_subscribers(topic@) == if old(self).spec_subscribers(
                topic@,
            ).contains(conn) {
                old(self).spec_subscribers(topic@)
            } else {
                old(self).spec_subscribers(topic@).push(conn)
            },
            forall|k: Seq<char>|
                k != topic@ && old(self).subscriptions@.dom().contains(k)
                    ==> final(self).subscriptions@[k] == old(self).subscriptions@[k],
            r matches ServerAction::Ack { conn: c, id: i } && c == conn && i == id,
    {
        match self.subscriptions.remove(&topic) {
            Some(subs) => {
                let mut subs = subs;
                let ghost subs0 = subs@;
                let n = subs.len();
                let mut i: usize = 0;
                let mut present = false;
                while i < n
                    invariant
                        i <= n,
                        n == subs@.len(),
                        subs@ == subs0,
                        present <==> exists|j: int| 0 <= j < i && subs@[j] == conn,
                    decreases n - i,
                {
                    if subs[i] == conn {
                        present = true;
                    }
                    i = i + 1;
                }
                if !present {
                    subs.push(conn);
                }
                self.subscriptions.insert(topic, subs);
            },
            None => {
                let mut subs: Vec<u64> = Vec::new();
                subs.push(conn);
                self.subscriptions.insert(topic, subs);
            },
        }
        proof {
            assert(self.subscriptions@.dom() =~= old(self).subscriptions@.dom().insert(topic@));
        }
        ServerAction::Ack { conn, id }
    }

    /// Removes `conn` from the topic's subscribers; its first entry goes,
    /// and nothing else changes.
    pub fn process_unsubscribe(&mut self, conn: u64, topic: &String)
        requires
            old(self).wf(),
        ensures
            final(self).wf(),
            final(self).services@ == old(self).services@,
            final(self).executions@ == old(self).executions@,
            !old(self).spec_subscribers(topic@).contains(conn) ==> final(self).spec_subscribers(
                topic@,
            ) == old(self).spec_subscribers(topic@),
            old(self).spec_subscribers(topic@).contains(conn) ==> exists|j: int|
                0 <= j < old(self).spec_subscribers(topic@).len() && old(self).spec_subscribers(
                    topic@,
                )[j] == conn && (forall|l: int|
                    0 <= l < j ==> old(self).spec_subscribers(topic@)[l] != conn)
                    && final(self).spec_subscribers(topic@) == old(self).spec_subscribers(
                    topic@,
                ).remove(j),
            forall|k: Seq<char>|
                k != topic@ && old(self).subscriptions@.dom().contains(k)
                    ==> final(self).subscriptions@.dom().contains(k)
                    && final(self).subscriptions@[k] == old(self).subscriptions@[k],
    {
        match self.subscriptions.remove(topic) {
            None => {},
            Some(subs) => {
                let mut subs = subs;
                let ghost subs0 = subs@;
                let n = subs.len();
                let mut i: usize = 0;
                let mut hit: Option<usize> = None;
                while i < n
                    invariant
                        i <= n,
                        n == subs@.len(),
                        subs@ == subs0,
                        match hit {
                            Some(j) => j < i && subs@[j as int] == conn && (forall|l: int|
                                0 <= l < j ==> subs@[l] != conn),
                            None => forall|l: int| 0 <= l < i ==> subs@[l] != conn,
                        },
                    decreases n - i,
                {
                    if hit.is_none() && subs[i] == conn {
                        hit = Some(i);
                    }
                    i = i + 1;
                }
                match hit {
                    Some(j) => {
                        let _ = subs.remove(j);
                    },
                    None => {
                        proof {
                            assert(!subs0.contains(conn));
                        }
                    },
                }
                self.subscriptions.insert(topic.clone(), subs);
                proof {
                    assert(self.subscriptions@ =~= old(self).subscriptions@.insert(
                        topic@,
                        self.subscriptions@[topic@],
                    ));
                }
            },
        }
    }
}

/// Serializes one response onto a connection's write half: a response
/// header, then the result body or the wire form of the error.
///
/// Errors that cannot travel — IO, parse, internal, cancellation and
/// timeout observations are all local by design — come back unsent, as
/// does a body or error text too long for one frame; the write half is
/// then unchanged.
pub fn send_response(writer: &mut CodecWriteHalf, id: MessageId, res: Result<Vec<u8>, Error>) -> (r:
    Result<(), Error>)
    ensures
        ({
            let ok_frames = |is_ok: bool, body: Seq<u8>|
                spec_encode_frame(spec_header_frame(HeaderView::Response { id, is_ok }))
                    + spec_encode_frame(spec_body_frame(id, body));
            match res {
                Ok(body) => {
                    &&& body@.len() <= 0xFFFF_FFFF ==> (r is Ok && final(writer).writer@ == old(
                        writer,
                    ).writer@ + ok_frames(true, body@))
                    &&& body@.len() > 0xFFFF_FFFF ==> (r matches Err(e) && e is Internal
                        && final(writer).writer@ == old(writer).writer@)
                },
                Err(err) => {
                    &&& !spec_sendable(err) ==> (r == Result::<(), Error>::Err(err)
                        && final(writer).writer@ == old(writer).writer@)
                    &&& (spec_sendable(err) && err_msg_fits(spec_err_msg_of(err)@)) ==> (r is Ok
                        && final(writer).writer@ == old(writer).writer@ + ok_frames(
                        false,
                        spec_marshal_err_msg(spec_err_msg_of(err)@),
                    ))
                    &&& (spec_sendable(err) && !err_msg_fits(spec_err_msg_of(err)@)) ==> (
                    r matches Err(e) && e is Internal && final(writer).writer@ == old(
                        writer,
                    ).writer@)
                },
            }
        }),
{
    match res {
        Ok(body) => {
            if body.len() as u64 > 0xFFFF_FFFFu64 {
                return Err(Error::Internal("response body too long for one frame".to_string()));
            }
            match writer.write_header(&Header::Response { id, is_ok: true }) {
                Ok(()) => {},
                Err(_) => {
                    proof {
                        assert(false);
                    }
                },
            }
            match writer.write_body(id, body) {
                Ok(()) => {},
                Err(_) => {
                    proof {
                        assert(false);
                    }
                },
            }
            Ok(())
        },
        Err(err) => {
            let msg = match ErrorMessage::from_err(err) {
                Ok(m) => m,
                Err(e) => {
                    return Err(e);
                },
            };
            let body = match marshal_err_msg(&msg) {
                Ok(b) => b,
                Err(e) => {
                    return Err(e);
                },
            };
            if body.len() as u64 > 0xFFFF_FFFFu64 {
                return Err(
                    Error::Internal("error message too long for one frame".to_string()),
                );
            }
            match writer.write_header(&Header::Response { id, is_ok: false }) {
                Ok(()) => {},
                Err(_) => {
                    proof {
                        assert(false);
                    }
                },
            }
            match writer.write_body(id, body) {
                Ok(()) => {},
                Err(_) => {
                    proof {
                        assert(false);
                    }
                },
            }
            Ok(())
        },
    }
}

/// A wire error message both marshals and fits in one frame.
pub open spec fn err_msg_fits(m: crate::message::ErrorMessageView) -> bool {
    err_msg_wf(m) && spec_marshal_err_msg(m).len() <= 0xFFFF_FFFF
}

/// After a handler's completion is settled, its execution entry is absent,
/// and settling it again settles nothing: a handler answers its client at
/// most once.
pub proof fn lemma_execution_settled_once(executions: Map<u64, Execution>, conn: u64, id: MessageId)
    ensures
        !executions.remove(spec_exec_key(conn, id)).dom().contains(spec_exec_key(conn, id)),
{
}

/// Execution keys separate connections and ids: two executions collide
/// only when both their connection and their id agree.
pub proof fn lemma_exec_key_injective(c1: u64, i1: MessageId, c2: u64, i2: MessageId)
    requires
        c1 <= 0xFFFF_FFFF,
        c2 <= 0xFFFF_FFFF,
    ensures
        spec_exec_key(c1, i1) == spec_exec_key(c2, i2) <==> (c1 == c2 && i1 == i2),
{
    assert(spec_exec_key(c1, i1) == c1 * 0x10000 + i1);
    assert(spec_exec_key(c2, i2) == c2 * 0x10000 + i2);
    if c1 * 0x10000 + i1 == c2 * 0x10000 + i2 {
        assert((c1 * 0x10000 + i1) / 0x10000 == c1) by (nonlinear_arith)
            requires
                i1 < 0x10000,
        ;
        assert((c2 * 0x10000 + i2) / 0x10000 == c2) by (nonlinear_arith)
            requires
                i2 < 0x10000,
        ;
    }
}

} // verus!
