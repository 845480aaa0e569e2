//! Pending orders: the requests to open or cancel a pending order, the
//! platform's answers, and the pairing of answers with requests.
//!
//! The platform answers requests in the order they were made and carries no
//! request id in its answers, so each answer goes to the oldest request of
//! its kind that is still waiting.

use std::collections::{HashMap, VecDeque};

use vstd::prelude::*;

use crate::ids::{parse_uuid, uuid_parse, uuid_string, uuid_text};
use crate::json::{json_parse, member_get, model_as_str, model_get, parse_json, str_equal, JsonModel, JsonValue};
use crate::message::{utf8_text, Message, MessageView};
use crate::numbers::{decimal_text, u32_text};
use crate::pocketoption::frame::{bracket_array, bracket_array_of};

verus! {

/// The ticket named by a cancellation answer: the `ticket` member when it is
/// a string, else the answer itself when it is a string, read as a UUID.
pub open spec fn extract_ticket(v: JsonModel) -> Option<u128> {
    match model_get(v, "ticket"@) {
        Some(JsonModel::Str(t)) => uuid_parse(t),
        _ => match model_as_str(v) {
            Some(t) => uuid_parse(t),
            None => None,
        },
    }
}

/// Reads the ticket named by a cancellation answer.
pub fn extract_ticket_from_value(value: &JsonValue) -> (r: Option<u128>)
    ensures
        r == extract_ticket(value@),
{
    match value.get("ticket") {
        Some(t) => match t.as_str() {
            Some(s) => {
                return parse_uuid(s).ok();
            },
            None => {},
        },
        None => {},
    }
    match value.as_str() {
        Some(s) => parse_uuid(s).ok(),
        None => None,
    }
}

/// The platform's refusal to cancel a pending order.
#[derive(Debug)]
pub struct FailCancelPendingOrder {
    pub error: String,
    pub ticket: Option<u128>,
}

/// The optional ticket of a refusal to cancel: `null`, or a UUID string.
pub open spec fn fail_ticket(v: JsonModel) -> Option<Option<u128>> {
    match v {
        JsonModel::Null => Some(None),
        JsonModel::Str(t) => match uuid_parse(t) {
            Some(u) => Some(Some(u)),
            None => None,
        },
        _ => None,
    }
}

/// What a refusal to cancel holds: an object with a string `error` and an
/// optional `ticket` (absent, `null`, or a UUID string), or the same fields
/// as a list of one or two elements.
pub open spec fn fail_cancel_of(v: JsonModel) -> Option<(Seq<char>, Option<u128>)> {
    match v {
        JsonModel::Array(a) => if a.len() == 1 || a.len() == 2 {
            match a[0] {
                JsonModel::Str(e) => if a.len() == 1 {
                    Some((e, None))
                } else {
                    match fail_ticket(a[1]) {
                        Some(t) => Some((e, t)),
                        None => None,
                    }
                },
                _ => None,
            }
        } else {
            None
        },
        JsonModel::Object(ms) => match member_get(ms, "error"@) {
            Some(JsonModel::Str(e)) => match member_get(ms, "ticket"@) {
                None => Some((e, None)),
                Some(JsonModel::Null) => Some((e, None)),
                Some(JsonModel::Str(t)) => match uuid_parse(t) {
                    Some(u) => Some((e, Some(u))),
                    None => None,
                },
                _ => None,
            },
            _ => None,
        },
        _ => None,
    }
}

/// Reads a refusal to cancel from its JSON form.
pub fn decode_fail_cancel(v: &JsonValue) -> (r: Option<FailCancelPendingOrder>)
    ensures
        match fail_cancel_of(v@) {
            Some((e, t)) => r matches Some(f) && f.error@ == e && f.ticket == t,
            None => r is None,
        },
{
    match v {
        JsonValue::Object(_) => {
            let error = match v.get("error") {
                Some(JsonValue::Str(e)) => e,
                _ => {
                    return None;
                },
            };
            match v.get("ticket") {
                None => Some(FailCancelPendingOrder { error: error.clone(), ticket: None }),
                Some(JsonValue::Null) => Some(FailCancelPendingOrder { error: error.clone(), ticket: None }),
                Some(JsonValue::Str(t)) => match parse_uuid(t.as_str()) {
                    Ok(u) => Some(FailCancelPendingOrder { error: error.clone(), ticket: Some(u) }),
                    Err(_) => None,
                },
                _ => None,
            }
        },
        JsonValue::Array(items) => {
            if items.len() != 1 && items.len() != 2 {
                return None;
            }
            assert(v@->Array_0[0] == items@[0]@);
            let error = match &items[0] {
                JsonValue::Str(e) => e,
                _ => {
                    return None;
                },
            };
            if items.len() == 1 {
                return Some(FailCancelPendingOrder { error: error.clone(), ticket: None });
            }
            assert(v@->Array_0[1] == items@[1]@);
            match &items[1] {
                JsonValue::Null => Some(FailCancelPendingOrder { error: error.clone(), ticket: None }),
                JsonValue::Str(t) => match parse_uuid(t.as_str()) {
                    Ok(u) => Some(FailCancelPendingOrder { error: error.clone(), ticket: Some(u) }),
                    Err(_) => None,
                },
                _ => None,
            }
        },
        _ => None,
    }
}

/// The events with which the platform answers pending-order requests.
#[derive(Debug, Clone, Copy, PartialEq, Eq, Structural)]
pub enum ServerEvent {
    /// `successopenPendingOrder`
    OpenSuccess,
    /// `failopenPendingOrder`
    OpenFail,
    /// `successcancelPendingOrder`
    CancelSuccess,
    /// `failcancelPendingOrder`
    CancelFail,
}

/// The pending-order event named `name`.
pub open spec fn server_event(name: Seq<char>) -> Option<ServerEvent> {
    if name == "successopenPendingOrder"@ {
        Some(ServerEvent::OpenSuccess)
    } else if name == "failopenPendingOrder"@ {
        Some(ServerEvent::OpenFail)
    } else if name == "successcancelPendingOrder"@ {
        Some(ServerEvent::CancelSuccess)
    } else if name == "failcancelPendingOrder"@ {
        Some(ServerEvent::CancelFail)
    } else {
        None
    }
}

/// The pending-order event named `name`.
pub fn server_event_of(name: &str) -> (r: Option<ServerEvent>)
    ensures
        r == server_event(name@),
{
    if str_equal(name, "successopenPendingOrder") {
        Some(ServerEvent::OpenSuccess)
    } else if str_equal(name, "failopenPendingOrder") {
        Some(ServerEvent::OpenFail)
    } else if str_equal(name, "successcancelPendingOrder") {
        Some(ServerEvent::CancelSuccess)
    } else if str_equal(name, "failcancelPendingOrder") {
        Some(ServerEvent::CancelFail)
    } else {
        None
    }
}

/// A server message read as far as its framing goes.
#[derive(Debug)]
pub enum ServerMessage {
    /// The whole message is one JSON document; what it answers is told by
    /// its shape.
    Document(JsonValue),
    /// An event frame `[event, payload, ...]`.
    Event(ServerEvent, JsonValue),
}

/// The plain form of a [`ServerMessage`].
pub enum ServerMessageView {
    Document(JsonModel),
    Event(ServerEvent, JsonModel),
}

impl View for ServerMessage {
    type V = ServerMessageView;

    open spec fn view(&self) -> ServerMessageView {
        match self {
            ServerMessage::Document(v) => ServerMessageView::Document(v@),
            ServerMessage::Event(e, v) => ServerMessageView::Event(*e, v@),
        }
    }
}

/// Why a server message answers no pending-order request.
#[derive(Debug, Clone, Copy, PartialEq, Eq, Structural)]
pub enum ResponseError {
    /// The message is neither one JSON document nor a frame of a known event.
    NotJson,
    /// The payload of a known event does not have the event's shape.
    InvalidPayload,
    /// The message is neither text nor binary.
    Unsupported,
}

impl ResponseError {
    /// The error's message.
    pub fn message(&self) -> (r: String)
        ensures
            *self == ResponseError::Unsupported ==> r@ == "unsupported message type"@,
    {
        match self {
            ResponseError::NotJson => String::from_str("message is not JSON"),
            ResponseError::InvalidPayload => String::from_str("payload does not match the event"),
            ResponseError::Unsupported => String::from_str("unsupported message type"),
        }
    }
}

/// How a text message reads: a whole JSON document first; else a frame with
/// a payload whose first element names a known event.
pub open spec fn read_server_text(t: Seq<char>) -> Result<ServerMessageView, ResponseError> {
    match json_parse(t) {
        Some(v) => Ok(ServerMessageView::Document(v)),
        None => match bracket_array(t) {
            Some(items) => if items.len() >= 2 {
                let name = match model_as_str(items[0]) {
                    Some(n) => n,
                    None => Seq::empty(),
                };
                match server_event(name) {
                    Some(ev) => Ok(ServerMessageView::Event(ev, items[1])),
                    None => Err(ResponseError::NotJson),
                }
            } else {
                Err(ResponseError::NotJson)
            },
            None => Err(ResponseError::NotJson),
        },
    }
}

/// How a server message reads: text as [`read_server_text`] says; binary
/// data as one JSON document in UTF-8; anything else is unsupported.
pub open spec fn read_server_message(m: MessageView) -> Result<ServerMessageView, ResponseError> {
    match m {
        MessageView::Text(t) => read_server_text(t),
        MessageView::Binary(b) => if vstd::utf8::valid_utf8(b) {
            match json_parse(vstd::utf8::decode_utf8(b)) {
                Some(v) => Ok(ServerMessageView::Document(v)),
                None => Err(ResponseError::NotJson),
            }
        } else {
            Err(ResponseError::NotJson)
        },
        _ => Err(ResponseError::Unsupported),
    }
}

/// Reads a server message as far as its framing goes.
pub fn parse_server_response(msg: &Message) -> (r: Result<ServerMessage, ResponseError>)
    ensures
        match r {
            Ok(m) => read_server_message(msg@) == Ok::<ServerMessageView, ResponseError>(m@),
            Err(e) => read_server_message(msg@) == Err::<ServerMessageView, ResponseError>(e),
        },
{
    match msg {
        Message::Text(text) => {
            match parse_json(text.as_str()) {
                Some(v) => {
                    return Ok(ServerMessage::Document(v));
                },
                None => {},
            }
            match bracket_array_of(text.as_str()) {
                Some(items) => {
                    let mut items = items;
                    if items.len() >= 2 {
                        let ev = match items[0].as_str() {
                            Some(name) => server_event_of(name),
                            None => server_event_of(""),
                        };
                        proof {
                            reveal_strlit("");
                            assert(""@ =~= Seq::<char>::empty());
                        }
                        match ev {
                            Some(e) => {
                                let ghost before = items@;
                                let payload = items.remove(1);
                                assert(payload@ == before[1]@);
                                Ok(ServerMessage::Event(e, payload))
                            },
                            None => Err(ResponseError::NotJson),
                        }
                    } else {
                        Err(ResponseError::NotJson)
                    }
                },
                None => Err(ResponseError::NotJson),
            }
        },
        Message::Binary(data) => match utf8_text(data.as_slice()) {
            Some(text) => match parse_json(text.as_str()) {
                Some(v) => Ok(ServerMessage::Document(v)),
                None => Err(ResponseError::NotJson),
            },
            None => Err(ResponseError::NotJson),
        },
        _ => Err(ResponseError::Unsupported),
    }
}

/// A server answer to a pending-order request. `O` is an opened pending
/// order and `F` a refusal to open one.
#[derive(Debug)]
pub enum ServerResponse<O, F> {
    Success(O),
    Fail(F),
    CancelSuccess(JsonValue),
    CancelFail(FailCancelPendingOrder),
}

/// Settles what a framed server message answers. `as_order` and `as_fail`
/// are the JSON that the message carries (the document, or the event's
/// payload) decoded as an opened order and as a refusal to open, where it
/// has those shapes.
///
/// A whole document is an opened order if it reads as one, else a refusal
/// to open if it reads as one, else a successful cancellation. An event's
/// payload must have the shape that the event names.
pub fn server_response<O, F>(m: ServerMessage, as_order: Option<O>, as_fail: Option<F>) -> (r:
    Result<ServerResponse<O, F>, ResponseError>)
    ensures
        match m@ {
            ServerMessageView::Document(v) => match as_order {
                Some(o) => r matches Ok(ServerResponse::Success(x)) && x == o,
                None => match as_fail {
                    Some(f) => r matches Ok(ServerResponse::Fail(x)) && x == f,
                    None => r matches Ok(ServerResponse::CancelSuccess(x)) && x@ == v,
                },
            },
            ServerMessageView::Event(ServerEvent::OpenSuccess, _) => match as_order {
                Some(o) => r matches Ok(ServerResponse::Success(x)) && x == o,
                None => r == Err::<ServerResponse<O, F>, ResponseError>(ResponseError::InvalidPayload),
            },
            ServerMessageView::Event(ServerEvent::OpenFail, _) => match as_fail {
                Some(f) => r matches Ok(ServerResponse::Fail(x)) && x == f,
                None => r == Err::<ServerResponse<O, F>, ResponseError>(ResponseError::InvalidPayload),
            },
            ServerMessageView::Event(ServerEvent::CancelSuccess, v) => r matches Ok(
                ServerResponse::CancelSuccess(x),
            ) && x@ == v,
            ServerMessageView::Event(ServerEvent::CancelFail, v) => match fail_cancel_of(v) {
                Some((e, t)) => r matches Ok(ServerResponse::CancelFail(x)) && x.error@ == e && x.ticket == t,
                None => r == Err::<ServerResponse<O, F>, ResponseError>(ResponseError::InvalidPayload),
            },
        },
{
    match m {
        ServerMessage::Document(v) => match as_order {
            Some(o) => Ok(ServerResponse::Success(o)),
            None => match as_fail {
                Some(f) => Ok(ServerResponse::Fail(f)),
                None => Ok(ServerResponse::CancelSuccess(v)),
            },
        },
        ServerMessage::Event(ServerEvent::OpenSuccess, _) => match as_order {
            Some(o) => Ok(ServerResponse::Success(o)),
            None => Err(ResponseError::InvalidPayload),
        },
        ServerMessage::Event(ServerEvent::OpenFail, _) => match as_fail {
            Some(f) => Ok(ServerResponse::Fail(f)),
            None => Err(ResponseError::InvalidPayload),
        },
        ServerMessage::Event(ServerEvent::CancelSuccess, v) => Ok(ServerResponse::CancelSuccess(v)),
        ServerMessage::Event(ServerEvent::CancelFail, v) => match decode_fail_cancel(&v) {
            Some(f) => Ok(ServerResponse::CancelFail(f)),
            None => Err(ResponseError::InvalidPayload),
        },
    }
}

/// A request to cancel a pending order, waiting for its answer.
#[derive(Debug, Clone, Copy, PartialEq, Eq, Structural)]
pub struct PendingCancelRequest {
    pub req_id: u128,
    pub ticket: u128,
}

/// The result of a cancellation.
#[derive(Debug)]
pub struct CancelPendingOrderResult {
    pub ticket: u128,
    pub status: String,
}

/// The answer handed to a request, tagged with the request's id.
#[derive(Debug)]
pub enum CommandResponse<O, F> {
    Success { req_id: u128, pending_order: O },
    Error { req_id: u128, fail: F },
    CancelSuccess { req_id: u128, result: CancelPendingOrderResult },
    CancelError { req_id: u128, ticket: u128, error: String },
}

impl<O, F> CommandResponse<O, F> {
    /// The id of the request that this answers.
    pub open spec fn answers(&self) -> u128 {
        match self {
            CommandResponse::Success { req_id, .. } => *req_id,
            CommandResponse::Error { req_id, .. } => *req_id,
            CommandResponse::CancelSuccess { req_id, .. } => *req_id,
            CommandResponse::CancelError { req_id, .. } => *req_id,
        }
    }

    /// The id of the request that this answers.
    pub fn req_id(&self) -> (r: u128)
        ensures
            r == self.answers(),
    {
        match self {
            CommandResponse::Success { req_id, .. } => *req_id,
            CommandResponse::Error { req_id, .. } => *req_id,
            CommandResponse::CancelSuccess { req_id, .. } => *req_id,
            CommandResponse::CancelError { req_id, .. } => *req_id,
        }
    }
}

/// What to do with a server answer.
#[derive(Debug)]
pub enum ServerReply<O, F> {
    /// A pending order opened: add it to the book of pending orders, and
    /// answer the request with this id with it, when one waits.
    Opened(O, Option<u128>),
    /// Answer a request. For a successful cancellation, first remove the
    /// cancelled ticket from the book of pending orders.
    Respond(CommandResponse<O, F>),
    /// No request of this kind waits: the answer is dropped.
    Unclaimed,
}

/// The oldest waiting request of a queue, and the queue without it.
pub open spec fn answer_queue<T>(q: Seq<T>) -> (Option<T>, Seq<T>) {
    if q.len() > 0 {
        (Some(q[0]), q.drop_first())
    } else {
        (None, q)
    }
}

/// The ticket of a successful cancellation: the one the answer names, else
/// the one the request named.
pub open spec fn cancelled_ticket(v: JsonModel, request: PendingCancelRequest) -> u128 {
    match extract_ticket(v) {
        Some(t) => t,
        None => request.ticket,
    }
}

/// The pairing of server answers with waiting requests: the ids of the open
/// requests and the cancellation requests, oldest first.
pub struct PendingTradesApiModule {
    pending_open_req_ids: VecDeque<u128>,
    pending_cancel_requests: VecDeque<PendingCancelRequest>,
}

impl PendingTradesApiModule {
    /// The open requests waiting for an answer, oldest first.
    pub closed spec fn open_queue(&self) -> Seq<u128> {
        self.pending_open_req_ids@
    }

    /// The cancellation requests waiting for an answer, oldest first.
    pub closed spec fn cancel_queue(&self) -> Seq<PendingCancelRequest> {
        self.pending_cancel_requests@
    }

    /// A module with no waiting request.
    pub fn new() -> (m: Self)
        ensures
            m.open_queue() == Seq::<u128>::empty(),
            m.cancel_queue() == Seq::<PendingCancelRequest>::empty(),
    {
        PendingTradesApiModule { pending_open_req_ids: VecDeque::new(), pending_cancel_requests: VecDeque::new() }
    }

    /// Notes an open request, sent to the platform, as waiting.
    pub fn on_open_command(&mut self, req_id: u128)
        ensures
            final(self).open_queue() == old(self).open_queue().push(req_id),
            final(self).cancel_queue() == old(self).cancel_queue(),
    {
        self.pending_open_req_ids.push_back(req_id);
    }

    /// Notes a cancellation request, sent to the platform, as waiting.
    pub fn on_cancel_command(&mut self, req_id: u128, ticket: u128)
        ensures
            final(self).cancel_queue() == old(self).cancel_queue().push(
                PendingCancelRequest { req_id, ticket },
            ),
            final(self).open_queue() == old(self).open_queue(),
    {
        self.pending_cancel_requests.push_back(PendingCancelRequest { req_id, ticket });
    }

    /// Pairs a server answer with the oldest waiting request of its kind.
    pub fn on_server_response<O, F>(&mut self, resp: ServerResponse<O, F>) -> (r: ServerReply<O, F>)
        ensures
            match resp {
                ServerResponse::Success(o) => {
                    &&& r matches ServerReply::Opened(x, id) && x == o && id == answer_queue(old(self).open_queue()).0
                    &&& final(self).open_queue() == answer_queue(old(self).open_queue()).1
                    &&& final(self).cancel_queue() == old(self).cancel_queue()
                },
                ServerResponse::Fail(f) => {
                    &&& match answer_queue(old(self).open_queue()).0 {
                        Some(id) => r matches ServerReply::Respond(CommandResponse::Error { req_id, fail }) && req_id == id && fail == f,
                        None => r is Unclaimed,
                    }
                    &&& final(self).open_queue() == answer_queue(old(self).open_queue()).1
                    &&& final(self).cancel_queue() == old(self).cancel_queue()
                },
                ServerResponse::CancelSuccess(v) => {
                    &&& match answer_queue(old(self).cancel_queue()).0 {
                        Some(request) => r matches ServerReply::Respond(CommandResponse::CancelSuccess { req_id, result })
                            && req_id == request.req_id && result.ticket == cancelled_ticket(v@, request)
                            && result.status@ == "cancelled"@,
                        None => r is Unclaimed,
                    }
                    &&& final(self).cancel_queue() == answer_queue(old(self).cancel_queue()).1
                    &&& final(self).open_queue() == old(self).open_queue()
                },
                ServerResponse::CancelFail(fail) => {
                    &&& match answer_queue(old(self).cancel_queue()).0 {
                        Some(request) => r matches ServerReply::Respond(CommandResponse::CancelError { req_id, ticket, error })
                            && req_id == request.req_id && error@ == fail.error@
                            && ticket == (match fail.ticket { Some(t) => t, None => request.ticket }),
                        None => r is Unclaimed,
                    }
                    &&& final(self).cancel_queue() == answer_queue(old(self).cancel_queue()).1
                    &&& final(self).open_queue() == old(self).open_queue()
                },
            },
    {
        match resp {
            ServerResponse::Success(o) => {
                let id = self.pending_open_req_ids.pop_front();
                ServerReply::Opened(o, id)
            },
            ServerResponse::Fail(f) => match self.pending_open_req_ids.pop_front() {
                Some(req_id) => ServerReply::Respond(CommandResponse::Error { req_id, fail: f }),
                None => ServerReply::Unclaimed,
            },
            ServerResponse::CancelSuccess(v) => match self.pending_cancel_requests.pop_front() {
                Some(request) => {
                    let ticket = match extract_ticket_from_value(&v) {
                        Some(t) => t,
                        None => request.ticket,
                    };
                    ServerReply::Respond(
                        CommandResponse::CancelSuccess {
                            req_id: request.req_id,
                            result: CancelPendingOrderResult { ticket, status: String::from_str("cancelled") },
                        },
                    )
                },
                None => ServerReply::Unclaimed,
            },
            ServerResponse::CancelFail(fail) => match self.pending_cancel_requests.pop_front() {
                Some(request) => {
                    let ticket = match fail.ticket {
                        Some(t) => t,
                        None => request.ticket,
                    };
                    ServerReply::Respond(
                        CommandResponse::CancelError { req_id: request.req_id, ticket, error: fail.error },
                    )
                },
                None => ServerReply::Unclaimed,
            },
        }
    }
}

/// How many answers to other requests a caller reads before it gives up.
pub const MAX_MISMATCH_RETRIES: usize = 5;

/// How long a caller waits for each answer, in seconds.
pub const PENDING_ORDER_TIMEOUT_SECS: u64 = 30;

/// Answers that reached a caller other than the one they answer, kept by
/// request id for their own callers.
pub struct ResponseCache<O, F> {
    responses: HashMap<u128, CommandResponse<O, F>>,
}

impl<O, F> ResponseCache<O, F> {
    /// The kept answers, by request id.
    pub closed spec fn kept(&self) -> Map<u128, CommandResponse<O, F>> {
        self.responses@
    }

    /// An empty cache.
    pub fn new() -> (c: Self)
        ensures
            c.kept() == Map::<u128, CommandResponse<O, F>>::empty(),
    {
        ResponseCache { responses: HashMap::new() }
    }

    /// Removes and returns the answer kept for request `req_id`.
    pub fn take(&mut self, req_id: u128) -> (r: Option<CommandResponse<O, F>>)
        ensures
            r == (if old(self).kept().contains_key(req_id) {
                Some(old(self).kept()[req_id])
            } else {
                None
            }),
            final(self).kept() == old(self).kept().remove(req_id),
    {
        self.responses.remove(&req_id)
    }

    /// Keeps an answer for the request it answers, in place of any answer
    /// kept for that request before.
    pub fn store(&mut self, resp: CommandResponse<O, F>)
        ensures
            final(self).kept() == old(self).kept().insert(resp.answers(), resp),
    {
        let id = resp.req_id();
        self.responses.insert(id, resp);
    }
}

/// The next step of a caller waiting for the answer to its request.
#[derive(Debug)]
pub enum WaitStep<R> {
    /// The answer arrived.
    Done(R),
    /// The answer belongs to another request and was kept for it; wait on.
    KeepWaiting,
    /// Too many answers to other requests arrived: give up.
    GiveUp,
}

/// A caller waiting for the answer to request `req_id`, with the number of
/// answers to other requests it has read so far.
pub struct ResponseWait {
    req_id: u128,
    mismatches: usize,
}

impl ResponseWait {
    /// The request waited for.
    pub closed spec fn request(&self) -> u128 {
        self.req_id
    }

    /// The answers to other requests read so far.
    pub closed spec fn mismatch_count(&self) -> nat {
        self.mismatches as nat
    }

    /// A wait for request `req_id` that has read nothing yet.
    pub fn new(req_id: u128) -> (w: Self)
        ensures
            w.request() == req_id,
            w.mismatch_count() == 0,
    {
        ResponseWait { req_id, mismatches: 0 }
    }

    /// Whether the wait has read as many answers to other requests as it
    /// accepts.
    pub fn gave_up(&self) -> (r: bool)
        ensures
            r == (self.mismatch_count() >= MAX_MISMATCH_RETRIES),
    {
        self.mismatches >= MAX_MISMATCH_RETRIES
    }

    /// Looks for the answer among those kept for it; takes it out if found.
    pub fn from_cache<O, F>(&self, cache: &mut ResponseCache<O, F>) -> (r: Option<CommandResponse<O, F>>)
        ensures
            r == (if old(cache).kept().contains_key(self.request()) {
                Some(old(cache).kept()[self.request()])
            } else {
                None
            }),
            final(cache).kept() == old(cache).kept().remove(self.request()),
    {
        cache.take(self.req_id)
    }

    /// Takes an answer read from the channel: the awaited one ends the wait;
    /// another is kept for its own caller and counted, and the wait gives up
    /// at the count of [`MAX_MISMATCH_RETRIES`].
    pub fn on_received<O, F>(&mut self, resp: CommandResponse<O, F>, cache: &mut ResponseCache<O, F>) -> (r:
        WaitStep<CommandResponse<O, F>>)
        requires
            old(self).mismatch_count() < MAX_MISMATCH_RETRIES,
        ensures
            final(self).request() == old(self).request(),
            resp.answers() == old(self).request() ==> {
                &&& r matches WaitStep::Done(x) && x == resp
                &&& final(cache).kept() == old(cache).kept()
                &&& final(self).mismatch_count() == old(self).mismatch_count()
            },
            resp.answers() != old(self).request() ==> {
                &&& final(cache).kept() == old(cache).kept().insert(resp.answers(), resp)
                &&& final(self).mismatch_count() == old(self).mismatch_count() + 1
                &&& if final(self).mismatch_count() >= MAX_MISMATCH_RETRIES {
                    r is GiveUp
                } else {
                    r is KeepWaiting
                }
            },
    {
        if resp.req_id() == self.req_id {
            WaitStep::Done(resp)
        } else {
            cache.store(resp);
            self.mismatches = self.mismatches + 1;
            if self.mismatches >= MAX_MISMATCH_RETRIES {
                WaitStep::GiveUp
            } else {
                WaitStep::KeepWaiting
            }
        }
    }
}

/// Why a pending-order request failed.
#[derive(Debug)]
pub enum PendingOrderError<F> {
    /// The platform refused to open the order.
    FailOpenOrder(F),
    /// No answer came in time, or too many answers to other requests came.
    Timeout { task: String, context: String, duration_secs: u64 },
    /// A channel between the caller and the module is closed.
    Channel(String),
    /// Any other failure.
    General(String),
}

/// The error of a wait that read no answer in time.
pub fn timeout_error<F>(task: &str, context: String) -> (e: PendingOrderError<F>)
    ensures
        e matches PendingOrderError::Timeout { task: t, context: c, duration_secs: d } && t@ == task@
            && c@ == context@ && d == PENDING_ORDER_TIMEOUT_SECS,
{
    PendingOrderError::Timeout {
        task: task.to_string(),
        context,
        duration_secs: PENDING_ORDER_TIMEOUT_SECS,
    }
}

/// The error of a wait that gave up after too many answers to other
/// requests: a timeout whose context says so.
pub fn mismatch_error<F>(task: &str, context: &str) -> (e: PendingOrderError<F>)
    ensures
        e matches PendingOrderError::Timeout { task: t, context: c, duration_secs: d } && t@ == task@
            && c@ == context@ + ", exceeded mismatch retries"@ && d == PENDING_ORDER_TIMEOUT_SECS,
{
    PendingOrderError::Timeout {
        task: task.to_string(),
        context: context.to_string().concat(", exceeded mismatch retries"),
        duration_secs: PENDING_ORDER_TIMEOUT_SECS,
    }
}

/// The context of a wait for the answer to an open request, as its
/// timeout reports it.
pub fn open_order_context(asset: &str, open_type: u32) -> (r: String)
    ensures
        r@ == "asset: "@ + asset@ + ", open_type: "@ + decimal_text(open_type as nat),
{
    String::from_str("asset: ").concat(asset).concat(", open_type: ").concat(u32_text(open_type).as_str())
}

/// The context of a wait for the answer to a cancellation, as its timeout
/// reports it.
pub fn cancel_order_context(ticket: u128) -> (r: String)
    ensures
        r@ == "ticket: "@ + uuid_text(ticket),
{
    String::from_str("ticket: ").concat(uuid_string(ticket).as_str())
}

/// What an open request returns for its answer: the opened order, or the
/// platform's refusal; any other answer is unexpected.
pub fn open_outcome<O, F>(resp: CommandResponse<O, F>) -> (r: Result<O, PendingOrderError<F>>)
    ensures
        match resp {
            CommandResponse::Success { pending_order, .. } => r matches Ok(o) && o == pending_order,
            CommandResponse::Error { fail, .. } => r matches Err(PendingOrderError::FailOpenOrder(f)) && f == fail,
            _ => r matches Err(PendingOrderError::General(m)) && m@
                == "unexpected response type for open_pending_order"@,
        },
{
    match resp {
        CommandResponse::Success { pending_order, .. } => Ok(pending_order),
        CommandResponse::Error { fail, .. } => Err(PendingOrderError::FailOpenOrder(fail)),
        _ => Err(PendingOrderError::General(String::from_str("unexpected response type for open_pending_order"))),
    }
}

/// What a cancellation request returns for its answer: the cancellation's
/// result, or an error naming the ticket and the platform's message; any
/// other answer is unexpected.
pub fn cancel_outcome<O, F>(resp: CommandResponse<O, F>) -> (r: Result<CancelPendingOrderResult, PendingOrderError<F>>)
    ensures
        match resp {
            CommandResponse::CancelSuccess { result, .. } => r matches Ok(x) && x == result,
            CommandResponse::CancelError { ticket, error, .. } => r matches Err(PendingOrderError::General(m))
                && m@ == "Failed to cancel ticket "@ + uuid_text(ticket) + ": "@ + error@,
            _ => r matches Err(PendingOrderError::General(m)) && m@
                == "unexpected response type for cancel_pending_order"@,
        },
{
    match resp {
        CommandResponse::CancelSuccess { result, .. } => Ok(result),
        CommandResponse::CancelError { ticket, error, .. } => {
            let text = String::from_str("Failed to cancel ticket ").concat(uuid_string(ticket).as_str()).concat(": ").concat(error.as_str());
            Err(PendingOrderError::General(text))
        },
        _ => Err(PendingOrderError::General(String::from_str("unexpected response type for cancel_pending_order"))),
    }
}

/// The requests that `n` answers in a row go to, from a queue `q`.
pub open spec fn answers_in_order<T>(q: Seq<T>, n: nat) -> Seq<Option<T>>
    decreases n,
{
    if n == 0 {
        Seq::empty()
    } else {
        seq![answer_queue(q).0] + answers_in_order(answer_queue(q).1, (n - 1) as nat)
    }
}

/// Answers go to requests in the order the requests were made: the `i`-th
/// of `n` answers goes to the `i`-th waiting request, and answers beyond
/// the waiting requests go to nobody.
pub proof fn lemma_fifo_pairing<T>(q: Seq<T>, n: nat)
    ensures
        answers_in_order(q, n).len() == n,
        forall|i: int| 0 <= i < n ==> #[trigger] answers_in_order(q, n)[i] == (if i < q.len() {
            Some(q[i])
        } else {
            None::<T>
        }),
    decreases n,
{
    if n > 0 {
        let rest = answer_queue(q).1;
        lemma_fifo_pairing(rest, (n - 1) as nat);
        let a = answers_in_order(q, n);
        assert forall|i: int| 0 <= i < n implies #[trigger] a[i] == (if i < q.len() {
            Some(q[i])
        } else {
            None::<T>
        }) by {
            if i > 0 {
                assert(a[i] == answers_in_order(rest, (n - 1) as nat)[i - 1]);
                if q.len() > 0 && i < q.len() {
                    assert(rest[i - 1] == q[i]);
                }
            }
        }
    }
}


/// What reaches the pending-orders module: an open or a cancellation
/// request, sent to the platform, or an answer to either kind.
pub enum PendingEvent {
    Open(u128),
    Cancel(PendingCancelRequest),
    OpenAnswer,
    CancelAnswer,
}

/// The module after a run of events from no waiting request: its open
/// queue and cancellation queue, and the request ids that the open answers
/// and the cancellation answers went to, in order. This is what
/// `on_open_command`, `on_cancel_command` and `on_server_response` do, one
/// event at a time.
pub open spec fn pending_run(ev: Seq<PendingEvent>) -> (Seq<u128>, Seq<PendingCancelRequest>, Seq<u128>, Seq<u128>)
    decreases ev.len(),
{
    if ev.len() == 0 {
        (Seq::empty(), Seq::empty(), Seq::empty(), Seq::empty())
    } else {
        let (oq, cq, ao, ac) = pending_run(ev.drop_last());
        match ev.last() {
            PendingEvent::Open(id) => (oq.push(id), cq, ao, ac),
            PendingEvent::Cancel(r) => (oq, cq.push(r), ao, ac),
            PendingEvent::OpenAnswer => match answer_queue(oq).0 {
                Some(id) => (answer_queue(oq).1, cq, ao.push(id), ac),
                None => (oq, cq, ao, ac),
            },
            PendingEvent::CancelAnswer => match answer_queue(cq).0 {
                Some(r) => (oq, answer_queue(cq).1, ao, ac.push(r.req_id)),
                None => (oq, cq, ao, ac),
            },
        }
    }
}

/// The ids of the open requests of a run, in order.
pub open spec fn open_requests(ev: Seq<PendingEvent>) -> Seq<u128>
    decreases ev.len(),
{
    if ev.len() == 0 {
        Seq::empty()
    } else {
        match ev.last() {
            PendingEvent::Open(id) => open_requests(ev.drop_last()).push(id),
            _ => open_requests(ev.drop_last()),
        }
    }
}

/// The ids of the cancellation requests of a run, in order.
pub open spec fn cancel_requests(ev: Seq<PendingEvent>) -> Seq<u128>
    decreases ev.len(),
{
    if ev.len() == 0 {
        Seq::empty()
    } else {
        match ev.last() {
            PendingEvent::Cancel(r) => cancel_requests(ev.drop_last()).push(r.req_id),
            _ => cancel_requests(ev.drop_last()),
        }
    }
}

/// Over any mix of requests and answers of both kinds, answers go to
/// requests of their own kind in the order the requests were made: the
/// requests answered so far are the first requests of that kind, each
/// answered once, and the others still wait, oldest first; an answer goes
/// to nobody exactly when no request of its kind waits.
pub proof fn lemma_fifo_over_runs(ev: Seq<PendingEvent>)
    ensures
        ({
            let (oq, cq, ao, ac) = pending_run(ev);
            let opens = open_requests(ev);
            let cancels = cancel_requests(ev);
            &&& ao.len() <= opens.len()
            &&& ao == opens.take(ao.len() as int)
            &&& oq == opens.skip(ao.len() as int)
            &&& ac.len() <= cancels.len()
            &&& ac == cancels.take(ac.len() as int)
            &&& cq.map_values(|r: PendingCancelRequest| r.req_id) == cancels.skip(ac.len() as int)
        }),
    decreases ev.len(),
{
    if ev.len() > 0 {
        let pre = ev.drop_last();
        lemma_fifo_over_runs(pre);
        let (oq, cq, ao, ac) = pending_run(pre);
        let opens = open_requests(pre);
        let cancels = cancel_requests(pre);
        let k = ao.len() as int;
        let c = ac.len() as int;
        match ev.last() {
            PendingEvent::Open(id) => {
                assert(opens.push(id).take(k) =~= opens.take(k));
                assert(opens.push(id).skip(k) =~= opens.skip(k).push(id));
            },
            PendingEvent::Cancel(r) => {
                assert(cancels.push(r.req_id).take(c) =~= cancels.take(c));
                assert(cq.push(r).map_values(|x: PendingCancelRequest| x.req_id) =~= cq.map_values(
                    |x: PendingCancelRequest| x.req_id,
                ).push(r.req_id));
                assert(cancels.push(r.req_id).skip(c) =~= cancels.skip(c).push(r.req_id));
            },
            PendingEvent::OpenAnswer => {
                if oq.len() > 0 {
                    assert(oq[0] == opens[k]);
                    assert(opens.take(k + 1) =~= opens.take(k).push(opens[k]));
                    assert(oq.drop_first() =~= opens.skip(k + 1));
                }
            },
            PendingEvent::CancelAnswer => {
                if cq.len() > 0 {
                    let ids = cq.map_values(|x: PendingCancelRequest| x.req_id);
                    assert(ids.len() == cq.len());
                    assert(ids == cancels.skip(c));
                    assert(c < cancels.len());
                    assert(ids[0] == cancels.skip(c)[0]);
                    assert(ids[0] == cancels[c]);
                    assert(cancels.take(c + 1) =~= cancels.take(c).push(cancels[c]));
                    assert(cq.drop_first().map_values(|x: PendingCancelRequest| x.req_id) =~= ids.drop_first());
                    assert(ids.drop_first() =~= cancels.skip(c + 1));
                }
            },
        }
    }
}


/// A message that is one JSON document, as text or as UTF-8 bytes, reads
/// as that document; text that is neither a document nor a frame of two
/// elements or more is refused; a message that is neither text nor binary
/// is unsupported.
pub proof fn lemma_documents_read_whole(m: MessageView)
    ensures
        m is Text && json_parse(m->Text_0) is Some ==> read_server_message(m) == Ok::<ServerMessageView, ResponseError>(
            ServerMessageView::Document(json_parse(m->Text_0)->0),
        ),
        m is Text && json_parse(m->Text_0) is None && !(bracket_array(m->Text_0) is Some && bracket_array(
            m->Text_0,
        )->0.len() >= 2) ==> read_server_message(m) == Err::<ServerMessageView, ResponseError>(ResponseError::NotJson),
        m is Binary && vstd::utf8::valid_utf8(m->Binary_0) && json_parse(vstd::utf8::decode_utf8(m->Binary_0)) is Some
            ==> read_server_message(m) == Ok::<ServerMessageView, ResponseError>(
            ServerMessageView::Document(json_parse(vstd::utf8::decode_utf8(m->Binary_0))->0),
        ),
        !(m is Text) && !(m is Binary) ==> read_server_message(m) == Err::<ServerMessageView, ResponseError>(
            ResponseError::Unsupported,
        ),
{
}

/// A text frame that is not itself a JSON document, whose first element
/// names a pending-order event and which has a second element, reads as
/// that event with the second element: `successopenPendingOrder` as an
/// opened order, `failopenPendingOrder` as a refusal to open,
/// `successcancelPendingOrder` as a cancellation and `failcancelPendingOrder`
/// as a refusal to cancel; a frame naming anything else is refused.
pub proof fn lemma_answer_events_by_name(t: Seq<char>, items: Seq<JsonModel>, n: Seq<char>)
    requires
        json_parse(t) is None,
        bracket_array(t) == Some(items),
        items.len() >= 2,
        model_as_str(items[0]) == Some(n),
    ensures
        ({
            &&& n == "successopenPendingOrder"@ ==> read_server_text(t) == Ok::<ServerMessageView, ResponseError>(
                ServerMessageView::Event(ServerEvent::OpenSuccess, items[1]),
            )
            &&& n == "failopenPendingOrder"@ ==> read_server_text(t) == Ok::<ServerMessageView, ResponseError>(
                ServerMessageView::Event(ServerEvent::OpenFail, items[1]),
            )
            &&& n == "successcancelPendingOrder"@ ==> read_server_text(t) == Ok::<ServerMessageView, ResponseError>(
                ServerMessageView::Event(ServerEvent::CancelSuccess, items[1]),
            )
            &&& n == "failcancelPendingOrder"@ ==> read_server_text(t) == Ok::<ServerMessageView, ResponseError>(
                ServerMessageView::Event(ServerEvent::CancelFail, items[1]),
            )
            &&& (n != "successopenPendingOrder"@ && n != "failopenPendingOrder"@ && n
                != "successcancelPendingOrder"@ && n != "failcancelPendingOrder"@) ==> read_server_text(t)
                == Err::<ServerMessageView, ResponseError>(ResponseError::NotJson)
        }),
{
    reveal_strlit("successopenPendingOrder");
    assert("successopenPendingOrder"@.len() == 23 && "successopenPendingOrder"@[0] == 's' && "successopenPendingOrder"@[4] == 'e');
    reveal_strlit("failopenPendingOrder");
    assert("failopenPendingOrder"@.len() == 20 && "failopenPendingOrder"@[0] == 'f' && "failopenPendingOrder"@[4] == 'o');
    reveal_strlit("successcancelPendingOrder");
    assert("successcancelPendingOrder"@.len() == 25 && "successcancelPendingOrder"@[0] == 's' && "successcancelPendingOrder"@[4] == 'e');
    reveal_strlit("failcancelPendingOrder");
    assert("failcancelPendingOrder"@.len() == 22 && "failcancelPendingOrder"@[0] == 'f' && "failcancelPendingOrder"@[4] == 'c');
}

} // verus!
