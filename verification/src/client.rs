//! The client side: the reader's classification of inbound messages and the
//! broker that owns the writer, correlates responses with outstanding calls
//! by message id, and drives per-call timeouts, cancellation and
//! subscription delivery.
//!
//! The broker is a state machine over plain values: a runtime pumps wire
//! bytes in and out of the codec halves, arms the timers, and hands each
//! caller its [`Resolution`].

use core::marker::PhantomData;

use vstd::prelude::*;

use crate::codec::{
    header_fits, spec_body_frame, spec_header_frame, spec_message_available, spec_next_message,
    Codec, CodecReadHalf, CodecWriteHalf, SplittableCodec,
};
use crate::error::{spec_err_view_of_msg, Error};
use crate::frame::{lemma_parse_frame_size, spec_encode_frame, spec_parse_frame};
use crate::message::{Metadata, MessageId};
use crate::protocol::{spec_parse_err_msg, unmarshal_err_msg, Header, HeaderView};
use crate::registry::{Registry, TopicMap};

verus! {

/// Type state for creating `Client`.
pub struct NotConnected {}

/// Type state for creating `Client`.
pub struct Connected {}

/// One outstanding call, as the broker tracks it.
pub struct PendingCall {
    /// The request's timeout in milliseconds; the runtime arms the timer.
    pub timeout_millis: u64,
}

/// How one call ends at its waiter: with the response body, or an error.
pub struct Resolution {
    /// The id of the call that resolved.
    pub id: MessageId,
    /// The response body on success; the error the waiter sees otherwise.
    pub result: Result<Vec<u8>, Error>,
}

/// What the reader hands the broker for each inbound message.
pub enum ClientBrokerItem {
    /// A response to an outstanding call.
    Response {
        /// Id of the call it answers.
        id: MessageId,
        /// Whether the body carries a result or an error message.
        is_ok: bool,
        /// The body bytes.
        body: Vec<u8>,
    },
    /// A publication on a subscribed topic.
    Publication {
        /// Id the server chose for this delivery.
        id: MessageId,
        /// The topic published to.
        topic: String,
        /// The published value's bytes.
        body: Vec<u8>,
    },
    /// An acknowledgement of a publish or subscribe message.
    Ack(MessageId),
    /// The transport ended; the broker fails everything outstanding.
    Stop,
    /// A message the client plays no part in; accepted and dropped.
    Ignored(MessageId),
}

/// The mathematical value of a reader item.
pub enum ClientBrokerItemView {
    /// A response to an outstanding call.
    Response { id: MessageId, is_ok: bool, body: Seq<u8> },
    /// A publication on a subscribed topic.
    Publication { id: MessageId, topic: Seq<char>, body: Seq<u8> },
    /// An acknowledgement.
    Ack(MessageId),
    /// The transport ended.
    Stop,
    /// A message the client plays no part in.
    Ignored(MessageId),
}

impl View for ClientBrokerItem {
    type V = ClientBrokerItemView;

    open spec fn view(&self) -> ClientBrokerItemView {
        match self {
            ClientBrokerItem::Response { id, is_ok, body } => ClientBrokerItemView::Response {
                id: *id,
                is_ok: *is_ok,
                body: body@,
            },
            ClientBrokerItem::Publication { id, topic, body } => ClientBrokerItemView::Publication {
                id: *id,
                topic: topic@,
                body: body@,
            },
            ClientBrokerItem::Ack(id) => ClientBrokerItemView::Ack(*id),
            ClientBrokerItem::Stop => ClientBrokerItemView::Stop,
            ClientBrokerItem::Ignored(id) => ClientBrokerItemView::Ignored(*id),
        }
    }
}

/// Which broker item one inbound message becomes at the client.
pub open spec fn spec_classify(h: HeaderView, body: Seq<u8>) -> ClientBrokerItemView {
    match h {
        HeaderView::Response { id, is_ok } => ClientBrokerItemView::Response { id, is_ok, body },
        HeaderView::Publish { id, topic } => ClientBrokerItemView::Publication { id, topic, body },
        HeaderView::Ack(id) => ClientBrokerItemView::Ack(id),
        _ => ClientBrokerItemView::Ignored(crate::protocol::spec_header_id(h)),
    }
}

/// Single owner of the codec read half: turns inbound byte pairs of frames
/// into typed broker items.
pub struct ClientReader {
    /// The read half this reader owns.
    pub reader: CodecReadHalf,
}

impl ClientReader {
    /// Reads and classifies the next logical message.
    ///
    /// `None` means no whole message is buffered yet: feed more bytes and
    /// come back. An error means the stream is corrupt.
    pub fn op(&mut self) -> (r: Option<Result<ClientBrokerItem, Error>>)
        requires
            old(self).reader.wf(),
        ensures
            final(self).reader.wf(),
            !spec_message_available(old(self).reader.remaining()) ==> (r is None
                && *final(self) == *old(self)),
            spec_message_available(old(self).reader.remaining()) ==> match spec_next_message(
                old(self).reader.remaining(),
            ) {
                Some((h, b, c)) => final(self).reader.remaining()
                    == old(self).reader.remaining().skip(c) && (r matches Some(res)
                    && res matches Ok(item) && item@ == spec_classify(h, b)),
                None => r matches Some(res) && res matches Err(e) && e is ParseError,
            },
    {
        let ghost s0 = self.reader.remaining();
        if !self.reader.message_available() {
            return None;
        }
        proof {
            lemma_parse_frame_size(s0);
        }
        let header = match self.reader.read_header() {
            None => {
                proof {
                    assert(false);
                }
                return None;
            },
            Some(Err(e)) => {
                // Keep the stream aligned: the message's body frame is
                // consumed too, and the reader can continue.
                let _ = self.reader.read_body();
                return Some(Err(e));
            },
            Some(Ok(h)) => h,
        };
        let ghost c1 = spec_parse_frame(s0)->Some_0.1;
        proof {
            lemma_parse_frame_size(s0.skip(c1));
        }
        let body = match self.reader.read_body() {
            None => {
                proof {
                    assert(false);
                }
                return None;
            },
            Some(Err(e)) => {
                return Some(Err(e));
            },
            Some(Ok(b)) => b,
        };
        proof {
            let c2 = spec_parse_frame(s0.skip(c1))->Some_0.1;
            assert(self.reader.remaining() =~= s0.skip(c1 + c2));
        }
        let item = match header {
            Header::Response { id, is_ok } => ClientBrokerItem::Response { id, is_ok, body },
            Header::Publish { id, topic } => ClientBrokerItem::Publication { id, topic, body },
            Header::Ack(id) => ClientBrokerItem::Ack(id),
            other => ClientBrokerItem::Ignored(other.get_id()),
        };
        Some(Ok(item))
    }
}

/// The id the broker assigns after `c`: the next one up, wrapping.
pub open spec fn spec_next_count(c: u16) -> u16 {
    if c == 0xFFFF {
        0
    } else {
        (c + 1) as u16
    }
}

/// The request header a call with these parts puts on the wire.
pub open spec fn spec_request(id: MessageId, service_method: Seq<char>, timeout_millis: u64) -> HeaderView {
    HeaderView::Request { id, service_method, timeout_millis }
}

/// What a response for `id` does to the call registry: if `id` is
/// outstanding its entry leaves and the call resolves; otherwise nothing
/// changes and nothing resolves.
pub open spec fn spec_resolve(pending: Map<u64, PendingCall>, id: MessageId) -> (
    Map<u64, PendingCall>,
    bool,
) {
    if pending.dom().contains(id as u64) {
        (pending.remove(id as u64), true)
    } else {
        (pending, false)
    }
}

/// The two frames a cancellation puts on the wire.
pub open spec fn spec_cancel_bytes(id: MessageId) -> Seq<u8> {
    spec_encode_frame(spec_header_frame(HeaderView::Cancel(id))) + spec_encode_frame(
        spec_body_frame(id, Seq::<u8>::empty()),
    )
}

/// An RPC client over one connection.
///
/// `Mode` is a type state: a client is built disconnected and becomes
/// [`Connected`] once it holds a codec.
pub struct Client<Mode> {
    /// The next message id to assign.
    pub count: u16,
    /// The call registry: one entry per outstanding call, keyed by id.
    pub pending: Registry<PendingCall>,
    /// The topics this client subscribes to, each with the id of its
    /// subscribe message.
    pub subscriptions: TopicMap<u64>,
    /// The write half: the broker is its single owner.
    pub writer: CodecWriteHalf,
    /// The reader: single owner of the read half.
    pub reader: ClientReader,
    /// The type state.
    pub mode: PhantomData<Mode>,
}

impl<Mode> Client<Mode> {
    /// The registries are well formed and every registered key is a
    /// message id.
    pub open spec fn wf(self) -> bool {
        &&& self.pending.wf()
        &&& self.subscriptions.wf()
        &&& self.reader.reader.wf()
        &&& forall|k: u64| self.pending@.dom().contains(k) ==> k < 0x10000
    }
}

impl Client<NotConnected> {
    /// Creates a connected client over a codec, with no outstanding call,
    /// no subscription, and ids starting at zero.
    pub fn with_codec(codec: Codec) -> (r: Client<Connected>)
        ensures
            r.wf(),
            r.count == 0,
            r.pending@ == Map::<u64, PendingCall>::empty(),
            r.subscriptions@ == Map::<Seq<char>, u64>::empty(),
            r.writer.writer@ == codec.writer@,
            r.reader.reader.remaining() == codec.reader@,
    {
        let (writer, reader) = codec.split();
        Client {
            count: 0,
            pending: Registry::new(),
            subscriptions: TopicMap::new(),
            writer,
            reader: ClientReader { reader },
            mode: PhantomData,
        }
    }
}

impl Client<Connected> {
    /// The two states are the same, seen through the registries' views and
    /// the buffers' contents.
    pub open spec fn same_state(self, other: Client<Connected>) -> bool {
        &&& self.count == other.count
        &&& self.pending@ == other.pending@
        &&& self.subscriptions@ == other.subscriptions@
        &&& self.writer.writer@ == other.writer.writer@
        &&& self.reader.reader.remaining() == other.reader.reader.remaining()
    }

    /// A call with these parts can go out: the id is free, the header
    /// marshals and fits one frame, and the body fits one frame.
    pub open spec fn call_admissible(self, service_method: Seq<char>, body: Seq<u8>, timeout_millis: u64) -> bool {
        &&& !self.pending@.dom().contains(self.count as u64)
        &&& header_fits(spec_request(self.count, service_method, timeout_millis))
        &&& body.len() <= 0xFFFF_FFFF
    }

    /// Issues a call: assigns the next id, puts the request header and the
    /// serialized arguments on the wire, and registers the call as
    /// outstanding. The returned id is the waiter's handle; the call
    /// resolves through [`Self::handle_response`], [`Self::handle_timeout`]
    /// or [`Self::stop`], exactly once.
    ///
    /// Fails, changing nothing, exactly when the id is still outstanding
    /// after a wraparound, or the header or body does not fit the wire
    /// format.
    pub fn async_call(&mut self, service_method: String, args: Vec<u8>, timeout_millis: u64) -> (r:
        Result<MessageId, Error>)
        requires
            old(self).wf(),
        ensures
            final(self).wf(),
            old(self).call_admissible(service_method@, args@, timeout_millis) ==> {
                &&& r == Result::<MessageId, Error>::Ok(old(self).count)
                &&& final(self).count == spec_next_count(old(self).count)
                &&& final(self).pending@ == old(self).pending@.insert(
                    old(self).count as u64,
                    PendingCall { timeout_millis },
                )
                &&& final(self).writer.writer@ == old(self).writer.writer@ + spec_encode_frame(
                    spec_header_frame(
                        spec_request(old(self).count, service_method@, timeout_millis),
                    ),
                ) + spec_encode_frame(spec_body_frame(old(self).count, args@))
                &&& final(self).subscriptions@ == old(self).subscriptions@
                &&& final(self).reader == old(self).reader
            },
            !old(self).call_admissible(service_method@, args@, timeout_millis) ==> (r matches Err(e)
                && e is Internal && final(self).same_state(*old(self))),
    {
        let id = self.count;
        if self.pending.contains_key(id as u64) {
            return Err(
                Error::Internal("message id wrapped while still outstanding".to_string()),
            );
        }
        if args.len() as u64 > 0xFFFF_FFFFu64 {
            return Err(Error::Internal("request body too long for one frame".to_string()));
        }
        let header = Header::Request { id, service_method, timeout_millis };
        match self.writer.write_header(&header) {
            Ok(()) => {},
            Err(e) => {
                return Err(e);
            },
        }
        match self.writer.write_body(id, args) {
            Ok(()) => {},
            Err(e) => {
                proof {
                    assert(false);
                }
                return Err(e);
            },
        }
        self.count = if self.count == 0xFFFFu16 {
            0
        } else {
            self.count + 1
        };
        self.pending.insert(id as u64, PendingCall { timeout_millis });
        Ok(id)
    }

    /// Resolves the call a response answers.
    ///
    /// Exactly when `id` is outstanding, its entry leaves the registry and
    /// the waiter registered under `id` gets the response: the body on
    /// success, or the error message the body decodes to. A response for an
    /// id that is not outstanding — already resolved, timed out or
    /// cancelled — is dropped.
    pub fn handle_response(&mut self, id: MessageId, is_ok: bool, body: Vec<u8>) -> (r: Option<
        Resolution,
    >)
        requires
            old(self).wf(),
        ensures
            final(self).wf(),
            final(self).pending@ == spec_resolve(old(self).pending@, id).0,
            (r is Some) == spec_resolve(old(self).pending@, id).1,
            final(self).count == old(self).count,
            final(self).subscriptions@ == old(self).subscriptions@,
            final(self).writer == old(self).writer,
            final(self).reader == old(self).reader,
            match r {
                Some(res) => {
                    &&& res.id == id
                    &&& is_ok ==> (res.result matches Ok(b) && b@ == body@)
                    &&& !is_ok ==> (res.result matches Err(e) && match spec_parse_err_msg(body@) {
                        Some(m) => e@ == spec_err_view_of_msg(m),
                        None => e@ is ParseError,
                    })
                },
                None => true,
            },
    {
        match self.pending.remove(id as u64) {
            None => None,
            Some(_) => {
                if is_ok {
                    Some(Resolution { id, result: Ok(body) })
                } else {
                    match unmarshal_err_msg(&body) {
                        Ok(m) => Some(Resolution { id, result: Err(Error::from_err_msg(m)) }),
                        Err(e) => Some(Resolution { id, result: Err(e) }),
                    }
                }
            },
        }
    }

    /// Cancels an outstanding call: its entry leaves the registry, so any
    /// later response for `id` is dropped, and a cancellation goes on the
    /// wire for the server to abandon the execution.
    pub fn cancel(&mut self, id: MessageId)
        requires
            old(self).wf(),
        ensures
            final(self).wf(),
            final(self).pending@ == old(self).pending@.remove(id as u64),
            final(self).writer.writer@ == old(self).writer.writer@ + spec_cancel_bytes(id),
            final(self).count == old(self).count,
            final(self).subscriptions@ == old(self).subscriptions@,
            final(self).reader == old(self).reader,
    {
        let _ = self.pending.remove(id as u64);
        match self.writer.write_header(&Header::Cancel(id)) {
            Ok(()) => {},
            Err(_) => {
                proof {
                    assert(false);
                }
            },
        }
        match self.writer.write_body(id, Vec::new()) {
            Ok(()) => {},
            Err(_) => {
                proof {
                    assert(false);
                }
            },
        }
    }

    /// Resolves an outstanding call whose deadline fired: exactly when `id`
    /// is still outstanding, the waiter gets `Timeout(Some(id))` and a
    /// cancellation goes on the wire. A response that arrives after this is
    /// dropped.
    pub fn handle_timeout(&mut self, id: MessageId) -> (r: Option<Resolution>)
        requires
            old(self).wf(),
        ensures
            final(self).wf(),
            final(self).pending@ == spec_resolve(old(self).pending@, id).0,
            (r is Some) == spec_resolve(old(self).pending@, id).1,
            final(self).count == old(self).count,
            final(self).subscriptions@ == old(self).subscriptions@,
            final(self).reader == old(self).reader,
            match r {
                Some(res) => res.id == id && res.result == Result::<Vec<u8>, Error>::Err(
                    Error::Timeout(Some(id)),
                ) && final(self).writer.writer@ == old(self).writer.writer@ + spec_cancel_bytes(
                    id,
                ),
                None => final(self).writer == old(self).writer,
            },
    {
        match self.pending.remove(id as u64) {
            None => None,
            Some(_) => {
                match self.writer.write_header(&Header::Cancel(id)) {
                    Ok(()) => {},
                    Err(_) => {
                        proof {
                            assert(false);
                        }
                    },
                }
                match self.writer.write_body(id, Vec::new()) {
                    Ok(()) => {},
                    Err(_) => {
                        proof {
                            assert(false);
                        }
                    },
                }
                Some(Resolution { id, result: Err(Error::Timeout(Some(id))) })
            },
        }
    }

    /// The transport ended: every outstanding call resolves with
    /// `Canceled(None)`, each exactly once, and the registries empty.
    pub fn stop(&mut self) -> (r: Vec<Resolution>)
        requires
            old(self).wf(),
        ensures
            final(self).wf(),
            final(self).pending@ == Map::<u64, PendingCall>::empty(),
            final(self).subscriptions@ == Map::<Seq<char>, u64>::empty(),
            final(self).count == old(self).count,
            final(self).writer == old(self).writer,
            final(self).reader == old(self).reader,
            forall|i: int|
                0 <= i < r@.len() ==> old(self).pending@.dom().contains(
                    #[trigger] r@[i].id as u64,
                ) && r@[i].result == Result::<Vec<u8>, Error>::Err(Error::Canceled(None)),
            forall|i: int, j: int| 0 <= i < j < r@.len() ==> r@[i].id != r@[j].id,
            forall|k: u64|
                old(self).pending@.dom().contains(k) ==> exists|i: int|
                    0 <= i < r@.len() && #[trigger] r@[i].id as u64 == k,
    {
        let entries = self.pending.take_entries();
        self.subscriptions.clear();
        let mut out: Vec<Resolution> = Vec::new();
        let n = entries.len();
        let mut i: usize = 0;
        while i < n
            invariant
                i <= n,
                n == entries@.len(),
                out@.len() == i,
                forall|k: u64| old(self).pending@.dom().contains(k) ==> k < 0x10000,
                crate::registry::unique_keys(entries@),
                forall|j: int|
                    0 <= j < entries@.len() ==> old(self).pending@.dom().contains(
                        #[trigger] entries@[j].0,
                    ),
                forall|j: int|
                    0 <= j < i ==> #[trigger] out@[j].id as u64 == entries@[j].0 && out@[j].result
                        == Result::<Vec<u8>, Error>::Err(Error::Canceled(None)),
            decreases n - i,
        {
            let id64 = entries[i].0;
            out.push(Resolution { id: id64 as u16, result: Err(Error::Canceled(None)) });
            i = i + 1;
        }
        proof {
            assert forall|k: u64| old(self).pending@.dom().contains(k) implies exists|j: int|
                0 <= j < out@.len() && #[trigger] out@[j].id as u64 == k by {
                crate::registry::lemma_map_of_contains(entries@, k);
                let j = choose|j: int| 0 <= j < entries@.len() && entries@[j].0 == k;
                assert(out@[j].id as u64 == k);
            }
        }
        out
    }

    /// Subscribes to a topic: a subscribe message goes on the wire and the
    /// topic's sink is installed, so later publications route to it.
    ///
    /// Fails, changing nothing, exactly when the topic does not fit the
    /// wire format.
    pub fn subscribe(&mut self, topic: String) -> (r: Result<MessageId, Error>)
        requires
            old(self).wf(),
        ensures
            final(self).wf(),
            header_fits(HeaderView::Subscribe { id: old(self).count, topic: topic@ }) ==> {
                &&& r == Result::<MessageId, Error>::Ok(old(self).count)
                &&& final(self).count == spec_next_count(old(self).count)
                &&& final(self).subscriptions@ == old(self).subscriptions@.insert(
                    topic@,
                    old(self).count as u64,
                )
                &&& final(self).writer.writer@ == old(self).writer.writer@ + spec_encode_frame(
                    spec_header_frame(HeaderView::Subscribe { id: old(self).count, topic: topic@ }),
                ) + spec_encode_frame(spec_body_frame(old(self).count, Seq::<u8>::empty()))
                &&& final(self).pending@ == old(self).pending@
                &&& final(self).reader == old(self).reader
            },
            !header_fits(HeaderView::Subscribe { id: old(self).count, topic: topic@ }) ==> (
            r matches Err(e) && e is Internal && final(self).same_state(*old(self))),
    {
        let id = self.count;
        let key = topic.clone();
        let header = Header::Subscribe { id, topic };
        match self.writer.write_header(&header) {
            Ok(()) => {},
            Err(e) => {
                return Err(e);
            },
        }
        match self.writer.write_body(id, Vec::new()) {
            Ok(()) => {},
            Err(_) => {
                proof {
                    assert(false);
                }
            },
        }
        self.count = if self.count == 0xFFFFu16 {
            0
        } else {
            self.count + 1
        };
        self.subscriptions.insert(key, id as u64);
        Ok(id)
    }

    /// Publishes a value to a topic: a publish message with the value's
    /// bytes goes on the wire.
    ///
    /// Fails, changing nothing, exactly when the topic or the value does
    /// not fit the wire format.
    pub fn publish(&mut self, topic: String, body: Vec<u8>) -> (r: Result<MessageId, Error>)
        requires
            old(self).wf(),
        ensures
            final(self).wf(),
            (header_fits(HeaderView::Publish { id: old(self).count, topic: topic@ }) && body@.len()
                <= 0xFFFF_FFFF) ==> {
                &&& r == Result::<MessageId, Error>::Ok(old(self).count)
                &&& final(self).count == spec_next_count(old(self).count)
                &&& final(self).writer.writer@ == old(self).writer.writer@ + spec_encode_frame(
                    spec_header_frame(HeaderView::Publish { id: old(self).count, topic: topic@ }),
                ) + spec_encode_frame(spec_body_frame(old(self).count, body@))
                &&& final(self).pending@ == old(self).pending@
                &&& final(self).subscriptions@ == old(self).subscriptions@
                &&& final(self).reader == old(self).reader
            },
            !(header_fits(HeaderView::Publish { id: old(self).count, topic: topic@ })
                && body@.len() <= 0xFFFF_FFFF) ==> (r matches Err(e) && e is Internal
                && final(self).same_state(*old(self))),
    {
        let id = self.count;
        if body.len() as u64 > 0xFFFF_FFFFu64 {
            return Err(Error::Internal("published value too long for one frame".to_string()));
        }
        let header = Header::Publish { id, topic };
        match self.writer.write_header(&header) {
            Ok(()) => {},
            Err(e) => {
                return Err(e);
            },
        }
        match self.writer.write_body(id, body) {
            Ok(()) => {},
            Err(_) => {
                proof {
                    assert(false);
                }
            },
        }
        self.count = if self.count == 0xFFFFu16 {
            0
        } else {
            self.count + 1
        };
        Ok(id)
    }

    /// Unsubscribes from a topic: an unsubscribe message goes on the wire
    /// and the topic's sink leaves, so later publications for it are
    /// dropped.
    ///
    /// Fails, changing nothing, exactly when the topic does not fit the
    /// wire format.
    pub fn unsubscribe(&mut self, topic: String) -> (r: Result<MessageId, Error>)
        requires
            old(self).wf(),
        ensures
            final(self).wf(),
            header_fits(HeaderView::Unsubscribe { id: old(self).count, topic: topic@ }) ==> {
                &&& r == Result::<MessageId, Error>::Ok(old(self).count)
                &&& final(self).count == spec_next_count(old(self).count)
                &&& final(self).subscriptions@ == old(self).subscriptions@.remove(topic@)
                &&& final(self).writer.writer@ == old(self).writer.writer@ + spec_encode_frame(
                    spec_header_frame(
                        HeaderView::Unsubscribe { id: old(self).count, topic: topic@ },
                    ),
                ) + spec_encode_frame(spec_body_frame(old(self).count, Seq::<u8>::empty()))
                &&& final(self).pending@ == old(self).pending@
                &&& final(self).reader == old(self).reader
            },
            !header_fits(HeaderView::Unsubscribe { id: old(self).count, topic: topic@ }) ==> (
            r matches Err(e) && e is Internal && final(self).same_state(*old(self))),
    {
        let id = self.count;
        let header = Header::Unsubscribe { id, topic };
        match self.writer.write_header(&header) {
            Ok(()) => {},
            Err(e) => {
                return Err(e);
            },
        }
        match self.writer.write_body(id, Vec::new()) {
            Ok(()) => {},
            Err(_) => {
                proof {
                    assert(false);
                }
            },
        }
        self.count = if self.count == 0xFFFFu16 {
            0
        } else {
            self.count + 1
        };
        match header {
            Header::Unsubscribe { topic, .. } => {
                let _ = self.subscriptions.remove(&topic);
            },
            _ => {
                proof {
                    assert(false);
                }
            },
        }
        Ok(id)
    }

    /// Routes a publication to the topic's sink: the body comes back to be
    /// handed to the subscriber exactly when the topic is subscribed;
    /// otherwise the publication is dropped.
    pub fn handle_publication(&self, topic: &String, body: Vec<u8>) -> (r: Option<Vec<u8>>)
        requires
            self.wf(),
        ensures
            (r is Some) == self.subscriptions@.dom().contains(topic@),
            r matches Some(b) ==> b@ == body@,
    {
        if self.subscriptions.contains_key(topic) {
            Some(body)
        } else {
            None
        }
    }
}

/// Every issued request resolves exactly once through the registry: while
/// the call is outstanding, a response for its id resolves it, and once it
/// has resolved, a second response for the same id resolves nothing. With
/// [`Client::stop`] resolving each remaining call exactly once at the end
/// of the connection, no call resolves twice and none is forgotten.
pub proof fn lemma_call_resolves_exactly_once(pending: Map<u64, PendingCall>, id: MessageId)
    ensures
        pending.dom().contains(id as u64) ==> spec_resolve(pending, id).1,
        spec_resolve(pending, id).1 ==> !spec_resolve(spec_resolve(pending, id).0, id).1,
{
}

/// Concurrent calls resolve to their own waiters whatever order the
/// responses arrive in: with two distinct outstanding ids, either order of
/// responses resolves both calls, and leaves the same registry.
pub proof fn lemma_responses_correlate_by_id(
    pending: Map<u64, PendingCall>,
    id1: MessageId,
    id2: MessageId,
)
    requires
        id1 != id2,
        pending.dom().contains(id1 as u64),
        pending.dom().contains(id2 as u64),
    ensures
        spec_resolve(pending, id1).1,
        spec_resolve(spec_resolve(pending, id1).0, id2).1,
        spec_resolve(pending, id2).1,
        spec_resolve(spec_resolve(pending, id2).0, id1).1,
        spec_resolve(spec_resolve(pending, id1).0, id2).0 == spec_resolve(
            spec_resolve(pending, id2).0,
            id1,
        ).0,
{
    assert(pending.remove(id1 as u64).remove(id2 as u64) =~= pending.remove(id2 as u64).remove(
        id1 as u64,
    ));
}

/// After a cancellation, no reference to the id remains in the call
/// registry, and a response that arrives later resolves nothing: it is
/// dropped.
pub proof fn lemma_cancel_drops_late_response(pending: Map<u64, PendingCall>, id: MessageId)
    ensures
        !pending.remove(id as u64).dom().contains(id as u64),
        !spec_resolve(pending.remove(id as u64), id).1,
        spec_resolve(pending.remove(id as u64), id).0 == pending.remove(id as u64),
{
}

} // verus!
