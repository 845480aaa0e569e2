//! Deal updates: which socket messages carry lists of deals, and who is
//! waiting for a deal to close.
//!
//! The platform announces deal lists with the events `updateOpenedDeals`,
//! `updateClosedDeals` and `successcloseOrder`. A frame that holds the event
//! and a second element carries the list in that element
//! (`42["updateOpenedDeals",[...]]` or `451-["updateOpenedDeals",...]`); a
//! frame that holds the event alone (`451-["successcloseOrder"]`) is a
//! header, and the list comes in the next message, text or binary.

use std::collections::HashMap;

use vstd::prelude::*;

use crate::ids::{uuid_string, uuid_text};
use crate::json::{model_as_str, str_equal, JsonModel, JsonValue};
use crate::message::{Message, MessageView};
use crate::pocketoption::deal_book::{ids_of, map_of, DealBook};
use crate::pocketoption::frame::{bracket_array, bracket_array_of};

verus! {

broadcast use vstd::std_specs::hash::group_hash_axioms;

/// The kind of deal list that a message announces or carries; `Idle` when
/// no list is awaited.
#[derive(Debug, Clone, Copy, PartialEq, Eq, Structural)]
pub enum ExpectedMessage {
    UpdateClosedDeals,
    UpdateOpenedDeals,
    SuccessCloseOrder,
    Idle,
}

/// The kind of deal list that the event `name` carries.
pub open spec fn event_kind(name: Seq<char>) -> ExpectedMessage {
    if name == "updateOpenedDeals"@ {
        ExpectedMessage::UpdateOpenedDeals
    } else if name == "updateClosedDeals"@ {
        ExpectedMessage::UpdateClosedDeals
    } else if name == "successcloseOrder"@ {
        ExpectedMessage::SuccessCloseOrder
    } else {
        ExpectedMessage::Idle
    }
}

/// The kind of deal list that the event `name` carries.
pub fn event_kind_of(name: &str) -> (k: ExpectedMessage)
    ensures
        k == event_kind(name@),
{
    if str_equal(name, "updateOpenedDeals") {
        ExpectedMessage::UpdateOpenedDeals
    } else if str_equal(name, "updateClosedDeals") {
        ExpectedMessage::UpdateClosedDeals
    } else if str_equal(name, "successcloseOrder") {
        ExpectedMessage::SuccessCloseOrder
    } else {
        ExpectedMessage::Idle
    }
}

/// What a text message is to the deals module.
pub enum DealFrame {
    /// A deal event with its list in the same message.
    Single(ExpectedMessage, JsonModel),
    /// A deal event whose list comes in the next message.
    Header(ExpectedMessage),
    /// Anything else.
    Other,
}

/// How the deals module reads the text of a message: an array frame whose
/// first element names a deal event is a single-message update when it has
/// a second element, and a header otherwise.
pub open spec fn deal_frame(text: Seq<char>) -> DealFrame {
    match bracket_array(text) {
        Some(items) => if items.len() > 0 {
            match model_as_str(items[0]) {
                Some(name) => {
                    let kind = event_kind(name);
                    if kind == ExpectedMessage::Idle {
                        DealFrame::Other
                    } else if items.len() >= 2 {
                        DealFrame::Single(kind, items[1])
                    } else {
                        DealFrame::Header(kind)
                    }
                },
                None => DealFrame::Other,
            }
        } else {
            DealFrame::Other
        },
        None => DealFrame::Other,
    }
}

/// The data of a deal list, as it arrived.
#[derive(Debug)]
pub enum DealPayload {
    /// The second element of a single-message update.
    Json(JsonValue),
    /// A text message that followed a header.
    Text(String),
    /// A binary message that followed a header.
    Bytes(Vec<u8>),
}

/// The plain form of a [`DealPayload`].
pub enum DealPayloadView {
    Json(JsonModel),
    Text(Seq<char>),
    Bytes(Seq<u8>),
}

impl View for DealPayload {
    type V = DealPayloadView;

    open spec fn view(&self) -> DealPayloadView {
        match self {
            DealPayload::Json(v) => DealPayloadView::Json(v@),
            DealPayload::Text(t) => DealPayloadView::Text(t@),
            DealPayload::Bytes(b) => DealPayloadView::Bytes(b@),
        }
    }
}

/// What to do with a message.
#[derive(Debug)]
pub enum DealAction {
    /// Decode the payload as a deal list of the given kind and apply it.
    Process(ExpectedMessage, DealPayload),
    /// Nothing to do.
    Ignore,
}

/// The plain form of a [`DealAction`].
pub enum DealActionView {
    Process(ExpectedMessage, DealPayloadView),
    Ignore,
}

impl View for DealAction {
    type V = DealActionView;

    open spec fn view(&self) -> DealActionView {
        match self {
            DealAction::Process(k, p) => DealActionView::Process(*k, p@),
            DealAction::Ignore => DealActionView::Ignore,
        }
    }
}

/// The next awaited kind and the action, for a message received while
/// `expected` is awaited.
pub open spec fn deal_step(expected: ExpectedMessage, msg: MessageView) -> (
    ExpectedMessage,
    DealActionView,
) {
    match msg {
        MessageView::Text(t) => match deal_frame(t) {
            DealFrame::Single(kind, payload) => (
                ExpectedMessage::Idle,
                DealActionView::Process(kind, DealPayloadView::Json(payload)),
            ),
            DealFrame::Header(kind) => (kind, DealActionView::Ignore),
            DealFrame::Other => if expected != ExpectedMessage::Idle {
                (ExpectedMessage::Idle, DealActionView::Process(expected, DealPayloadView::Text(t)))
            } else {
                (ExpectedMessage::Idle, DealActionView::Ignore)
            },
        },
        MessageView::Binary(b) => if expected != ExpectedMessage::Idle {
            (ExpectedMessage::Idle, DealActionView::Process(expected, DealPayloadView::Bytes(b)))
        } else {
            (ExpectedMessage::Idle, DealActionView::Ignore)
        },
        _ => (expected, DealActionView::Ignore),
    }
}

/// Reads the text of a message as the deals module does.
fn read_frame(text: &str) -> (r: (ExpectedMessage, Option<JsonValue>))
    ensures
        match deal_frame(text@) {
            DealFrame::Single(kind, payload) => r.0 == kind && (r.1 matches Some(p) && p@ == payload),
            DealFrame::Header(kind) => r.0 == kind && r.1 is None,
            DealFrame::Other => r.0 == ExpectedMessage::Idle && r.1 is None,
        },
{
    match bracket_array_of(text) {
        Some(items) => {
            let mut items = items;
            if items.len() > 0 {
                let kind = match items[0].as_str() {
                    Some(name) => event_kind_of(name),
                    None => ExpectedMessage::Idle,
                };
                if kind == ExpectedMessage::Idle {
                    (ExpectedMessage::Idle, None)
                } else if items.len() >= 2 {
                    let ghost before = items@;
                    let payload = items.remove(1);
                    assert(payload@ == before[1]@);
                    (kind, Some(payload))
                } else {
                    (kind, None)
                }
            } else {
                (ExpectedMessage::Idle, None)
            }
        },
        None => (ExpectedMessage::Idle, None),
    }
}

/// What a trade-result request gets.
#[derive(Debug)]
pub enum CheckOutcome<D, W> {
    /// The deal is still open: the responder waits for it to close.
    Waiting,
    /// The deal has closed: hand it to the responder now.
    Closed(D, W),
    /// No deal with this id is known.
    DealNotFound(u128, W),
}

/// Why the result of a trade could not be had.
#[derive(Debug)]
pub enum DealsError {
    /// No deal with this id is known.
    DealNotFound(u128),
    /// The deals module stopped before answering.
    ResponderDropped,
    /// No result came in time.
    Timeout { task: String, context: String, duration_secs: u64 },
}

/// The error of a wait for the result of trade `trade_id` that lasted
/// `duration_secs` seconds without an answer.
pub fn check_result_timeout(trade_id: u128, duration_secs: u64) -> (e: DealsError)
    ensures
        e matches DealsError::Timeout { task, context, duration_secs: d } && task@ == "check_result"@
            && context@ == "Waiting for trade '"@ + uuid_text(trade_id) + "' result"@ && d == duration_secs,
{
    DealsError::Timeout {
        task: String::from_str("check_result"),
        context: String::from_str("Waiting for trade '").concat(uuid_string(trade_id).as_str()).concat("' result"),
        duration_secs,
    }
}

/// The deal lists' routing state and the responders waiting for deals to
/// close, keyed by trade id.
pub struct DealsApiModule<W> {
    expected: ExpectedMessage,
    waiting_requests: HashMap<u128, Vec<W>>,
}

/// The model of a list of closed-deal resolutions: the position of each
/// deal that had responders, and those responders.
pub open spec fn resolutions_view<W>(r: Seq<(usize, Vec<W>)>) -> Seq<(int, Seq<W>)> {
    r.map_values(|p: (usize, Vec<W>)| (p.0 as int, p.1@))
}

/// The responders that a list of closed deals `ids` releases from the
/// waiting lists `m`, in the order of the list: a deal releases the
/// responders of its id unless an earlier deal of the list already did.
pub open spec fn closed_resolutions<W>(m: Map<u128, Seq<W>>, ids: Seq<u128>) -> Seq<(int, Seq<W>)>
    decreases ids.len(),
{
    if ids.len() == 0 {
        Seq::empty()
    } else {
        let prev = closed_resolutions(m, ids.drop_last());
        let rest = m.remove_keys(ids.drop_last().to_set());
        let id = ids.last();
        if rest.contains_key(id) {
            prev.push(((ids.len() - 1) as int, rest[id]))
        } else {
            prev
        }
    }
}

/// The waiting lists `m` after `responder` joins those waiting for trade
/// `trade_id`, behind the ones already there.
pub open spec fn with_waiter<W>(m: Map<u128, Seq<W>>, trade_id: u128, responder: W) -> Map<u128, Seq<W>> {
    m.insert(
        trade_id,
        if m.contains_key(trade_id) {
            m[trade_id].push(responder)
        } else {
            seq![responder]
        },
    )
}

impl<W> DealsApiModule<W> {
    /// The kind of deal list awaited after a header.
    pub closed spec fn expected(&self) -> ExpectedMessage {
        self.expected
    }

    /// The responders waiting for each trade id, in the order they came.
    pub closed spec fn waiters(&self) -> Map<u128, Seq<W>> {
        self.waiting_requests@.map_values(|v: Vec<W>| v@)
    }

    /// A trade id is kept only while some responder waits for it.
    #[verifier::type_invariant]
    spec fn no_empty_lists(&self) -> bool {
        forall|id: u128| #[trigger] self.waiting_requests@.contains_key(id)
            ==> self.waiting_requests@[id].len() > 0
    }

    /// A module that awaits nothing and has no responders.
    pub fn new() -> (m: Self)
        ensures
            m.expected() == ExpectedMessage::Idle,
            m.waiters() == Map::<u128, Seq<W>>::empty(),
    {
        let m = DealsApiModule { expected: ExpectedMessage::Idle, waiting_requests: HashMap::new() };
        assert(m.waiters() =~= Map::<u128, Seq<W>>::empty());
        m
    }

    /// Routes one message: decides whether it carries a deal list, and of
    /// which kind, and what is awaited next.
    pub fn on_message(&mut self, msg: Message) -> (a: DealAction)
        ensures
            (final(self).expected(), a@) == deal_step(old(self).expected(), msg@),
            final(self).waiters() == old(self).waiters(),
    {
        proof {
            use_type_invariant(&*self);
        }
        let expected = self.expected;
        match msg {
            Message::Text(text) => {
                let (kind, payload) = read_frame(text.as_str());
                match payload {
                    Some(p) => {
                        self.expected = ExpectedMessage::Idle;
                        DealAction::Process(kind, DealPayload::Json(p))
                    },
                    None => {
                        if kind != ExpectedMessage::Idle {
                            self.expected = kind;
                            DealAction::Ignore
                        } else if expected != ExpectedMessage::Idle {
                            self.expected = ExpectedMessage::Idle;
                            DealAction::Process(expected, DealPayload::Text(text))
                        } else {
                            DealAction::Ignore
                        }
                    },
                }
            },
            Message::Binary(data) => {
                self.expected = ExpectedMessage::Idle;
                if expected != ExpectedMessage::Idle {
                    DealAction::Process(expected, DealPayload::Bytes(data))
                } else {
                    DealAction::Ignore
                }
            },
            _ => DealAction::Ignore,
        }
    }

    /// Adds `responder` to those waiting for trade `trade_id` to close.
    pub fn wait_for(&mut self, trade_id: u128, responder: W)
        ensures
            final(self).waiters() == with_waiter(old(self).waiters(), trade_id, responder),
            final(self).expected() == old(self).expected(),
    {
        proof {
            use_type_invariant(&*self);
        }
        let ghost before = self.waiting_requests@;
        let mut map: HashMap<u128, Vec<W>> = HashMap::new();
        std::mem::swap(&mut map, &mut self.waiting_requests);
        let mut list = match map.remove(&trade_id) {
            Some(l) => l,
            None => Vec::new(),
        };
        list.push(responder);
        map.insert(trade_id, list);
        self.waiting_requests = map;
        proof {
            let old_w = before.map_values(|v: Vec<W>| v@);
            assert(old_w.contains_key(trade_id) == before.contains_key(trade_id));
            assert(self.waiters() =~= old_w.insert(
                trade_id,
                if old_w.contains_key(trade_id) { old_w[trade_id].push(responder) } else { seq![responder] },
            ));
        }
    }

    /// Removes and returns the responders waiting for trade `trade_id`.
    pub fn take_waiters(&mut self, trade_id: u128) -> (r: Vec<W>)
        ensures
            r@ == (if old(self).waiters().contains_key(trade_id) {
                old(self).waiters()[trade_id]
            } else {
                Seq::empty()
            }),
            old(self).waiters().contains_key(trade_id) ==> r.len() > 0,
            final(self).waiters() == old(self).waiters().remove(trade_id),
            final(self).expected() == old(self).expected(),
    {
        proof {
            use_type_invariant(&*self);
        }
        let ghost before = self.waiting_requests@;
        let mut map: HashMap<u128, Vec<W>> = HashMap::new();
        std::mem::swap(&mut map, &mut self.waiting_requests);
        let r = match map.remove(&trade_id) {
            Some(l) => l,
            None => Vec::new(),
        };
        self.waiting_requests = map;
        proof {
            let old_w = before.map_values(|v: Vec<W>| v@);
            assert(self.waiters() =~= old_w.remove(trade_id));
        }
        r
    }

    /// Answers a request for the result of trade `trade_id`: a deal that is
    /// still open makes the responder wait; a closed one is handed over at
    /// once; an unknown one is reported as not found.
    pub fn on_check_result<D>(&mut self, trade_id: u128, is_open: bool, closed: Option<D>, responder: W) -> (r: CheckOutcome<D, W>)
        ensures
            is_open ==> r is Waiting && final(self).waiters() == with_waiter(old(self).waiters(), trade_id, responder),
            !is_open ==> final(self).waiters() == old(self).waiters(),
            !is_open && closed is Some ==> (r matches CheckOutcome::Closed(d, w) && d == closed->0 && w == responder),
            !is_open && closed is None ==> r == CheckOutcome::<D, W>::DealNotFound(trade_id, responder),
            final(self).expected() == old(self).expected(),
    {
        if is_open {
            self.wait_for(trade_id, responder);
            CheckOutcome::Waiting
        } else {
            match closed {
                Some(d) => CheckOutcome::Closed(d, responder),
                None => CheckOutcome::DealNotFound(trade_id, responder),
            }
        }
    }

    /// Releases the responders of a list of closed deals, in the order of
    /// the list; returns, for each deal that had responders, its position
    /// in the list and the responders to hand it to.
    pub fn on_deals_closed(&mut self, ids: &Vec<u128>) -> (r: Vec<(usize, Vec<W>)>)
        ensures
            resolutions_view(r@) == closed_resolutions(old(self).waiters(), ids@),
            final(self).waiters() == old(self).waiters().remove_keys(ids@.to_set()),
            final(self).expected() == old(self).expected(),
    {
        let ghost m0 = self.waiters();
        let mut out: Vec<(usize, Vec<W>)> = Vec::new();
        let mut i: usize = 0;
        assert(ids@.take(0).to_set() =~= Set::<u128>::empty());
        assert(m0.remove_keys(Set::<u128>::empty()) =~= m0);
        assert(resolutions_view(out@) =~= Seq::<(int, Seq<W>)>::empty());
        while i < ids.len()
            invariant
                i <= ids.len(),
                self.waiters() == m0.remove_keys(ids@.take(i as int).to_set()),
                resolutions_view(out@) == closed_resolutions(m0, ids@.take(i as int)),
                self.expected() == old(self).expected(),
                m0 == old(self).waiters(),
            decreases ids.len() - i,
        {
            let id = ids[i];
            let ghost prefix = ids@.take(i as int);
            let ghost next = ids@.take(i + 1);
            assert(next.drop_last() =~= prefix);
            assert(next.last() == id);
            assert(next.to_set() =~= prefix.to_set().insert(id)) by {
                assert forall|x: u128| next.to_set().contains(x) == prefix.to_set().insert(id).contains(x) by {
                    if next.contains(x) {
                        let j = choose|j: int| 0 <= j < next.len() && next[j] == x;
                        if j < i {
                            assert(prefix[j] == x);
                        }
                    }
                    if prefix.contains(x) {
                        let j = choose|j: int| 0 <= j < prefix.len() && prefix[j] == x;
                        assert(next[j] == x);
                    }
                    if x == id {
                        assert(next[i as int] == x);
                    }
                }
            }
            let ghost rest = m0.remove_keys(prefix.to_set());
            let ws = self.take_waiters(id);
            proof {
                assert(m0.remove_keys(next.to_set()) =~= rest.remove(id));
            }
            if ws.len() > 0 {
                let ghost before = out@;
                out.push((i, ws));
                proof {
                    assert(resolutions_view(out@) =~= resolutions_view(before).push((i as int, rest[id])));
                }
            }
            i = i + 1;
        }
        proof {
            assert(ids@.take(ids.len() as int) =~= ids@);
        }
        out
    }

    /// Applies a decoded deal list of kind `kind` to the book: an update of
    /// the opened deals replaces them; closed deals leave the opened deals,
    /// enter the closed ones and release their responders, as
    /// [`Self::on_deals_closed`] does for their ids.
    pub fn on_deal_list<D>(&mut self, book: &mut DealBook<D>, kind: ExpectedMessage, deals: Vec<(u128, D)>) -> (r: Vec<(usize, Vec<W>)>)
        ensures
            kind == ExpectedMessage::UpdateOpenedDeals ==> {
                &&& final(book).opened() == map_of(deals@)
                &&& final(book).closed_deals() == old(book).closed_deals()
                &&& r@.len() == 0
                &&& final(self).waiters() == old(self).waiters()
            },
            (kind == ExpectedMessage::UpdateClosedDeals || kind == ExpectedMessage::SuccessCloseOrder) ==> {
                &&& final(book).closed_deals() == old(book).closed_deals().union_prefer_right(map_of(deals@))
                &&& final(book).opened() == old(book).opened().remove_keys(ids_of(deals@))
                &&& resolutions_view(r@) == closed_resolutions(
                    old(self).waiters(),
                    deals@.map_values(|e: (u128, D)| e.0),
                )
                &&& final(self).waiters() == old(self).waiters().remove_keys(ids_of(deals@))
            },
            kind == ExpectedMessage::Idle ==> {
                &&& final(book).opened() == old(book).opened()
                &&& final(book).closed_deals() == old(book).closed_deals()
                &&& r@.len() == 0
                &&& final(self).waiters() == old(self).waiters()
            },
            final(self).expected() == old(self).expected(),
    {
        if kind == ExpectedMessage::UpdateOpenedDeals {
            book.replace_opened(deals);
            return Vec::new();
        }
        if kind == ExpectedMessage::Idle {
            return Vec::new();
        }
        let mut ids: Vec<u128> = Vec::new();
        let mut i: usize = 0;
        while i < deals.len()
            invariant
                i <= deals.len(),
                ids@ == deals@.take(i as int).map_values(|e: (u128, D)| e.0),
            decreases deals.len() - i,
        {
            ids.push(deals[i].0);
            assert(deals@.take(i + 1).map_values(|e: (u128, D)| e.0) =~= deals@.take(i as int).map_values(
                |e: (u128, D)| e.0,
            ).push(deals@[i as int].0));
            i = i + 1;
        }
        assert(deals@.take(deals.len() as int) =~= deals@);
        book.close(deals);
        self.on_deals_closed(&ids)
    }
}

/// A header announces the kind of the list that the next binary message
/// carries; that message is then processed as such a list and nothing is
/// awaited after it.
pub proof fn lemma_header_then_binary(expected: ExpectedMessage, header: Seq<char>, data: Seq<u8>)
    requires
        deal_frame(header) is Header,
    ensures
        ({
            let kind = deal_frame(header)->Header_0;
            let (after_header, first) = deal_step(expected, MessageView::Text(header));
            let (after_data, second) = deal_step(after_header, MessageView::Binary(data));
            &&& first == DealActionView::Ignore
            &&& second == DealActionView::Process(kind, DealPayloadView::Bytes(data))
            &&& after_data == ExpectedMessage::Idle
        }),
{
    let kind = deal_frame(header)->Header_0;
    assert(kind != ExpectedMessage::Idle);
}

/// A message that carries its own list is processed whatever was awaited,
/// and leaves nothing awaited.
pub proof fn lemma_single_message_update(expected: ExpectedMessage, text: Seq<char>)
    requires
        deal_frame(text) is Single,
    ensures
        deal_step(expected, MessageView::Text(text)) == (
            ExpectedMessage::Idle,
            DealActionView::Process(
                deal_frame(text)->Single_0,
                DealPayloadView::Json(deal_frame(text)->Single_1),
            ),
        ),
{
}

/// A binary message that no header announced is ignored.
pub proof fn lemma_unannounced_binary(data: Seq<u8>)
    ensures
        deal_step(ExpectedMessage::Idle, MessageView::Binary(data)) == (
            ExpectedMessage::Idle,
            DealActionView::Ignore,
        ),
{
}

/// Every announced kind is a deal kind: a header or a single-message
/// update never names `Idle`.
pub proof fn lemma_frames_name_deal_kinds(text: Seq<char>)
    ensures
        deal_frame(text) matches DealFrame::Header(k) ==> k != ExpectedMessage::Idle,
        deal_frame(text) matches DealFrame::Single(k, _) ==> k != ExpectedMessage::Idle,
{
}

/// Each resolution names the first position of a waiting trade in the list,
/// with all of that trade's responders.
proof fn lemma_resolution_entries<W>(m: Map<u128, Seq<W>>, ids: Seq<u128>)
    ensures
        forall|k: int| #![trigger closed_resolutions(m, ids)[k]] 0 <= k < closed_resolutions(m, ids).len() ==> {
            let j = closed_resolutions(m, ids)[k].0;
            &&& 0 <= j < ids.len()
            &&& m.contains_key(ids[j])
            &&& closed_resolutions(m, ids)[k].1 == m[ids[j]]
            &&& forall|i: int| 0 <= i < j ==> ids[i] != ids[j]
        },
    decreases ids.len(),
{
    if ids.len() > 0 {
        let prefix = ids.drop_last();
        lemma_resolution_entries(m, prefix);
        let prev = closed_resolutions(m, prefix);
        let r = closed_resolutions(m, ids);
        let rest = m.remove_keys(prefix.to_set());
        let id = ids.last();
        let n = ids.len() - 1;
        assert forall|k: int| #![trigger r[k]] 0 <= k < r.len() implies {
            let j = r[k].0;
            &&& 0 <= j < ids.len()
            &&& m.contains_key(ids[j])
            &&& r[k].1 == m[ids[j]]
            &&& forall|i: int| 0 <= i < j ==> ids[i] != ids[j]
        } by {
            if k < prev.len() {
                assert(r[k] == prev[k]);
                let j = prev[k].0;
                assert(prefix[j] == ids[j]);
                assert forall|i: int| 0 <= i < j implies ids[i] != ids[j] by {
                    assert(prefix[i] == ids[i]);
                }
            } else {
                assert(r[k] == (n, rest[id]));
                assert forall|i: int| 0 <= i < n implies ids[i] != ids[n] by {
                    assert(prefix[i] == ids[i]);
                    if ids[i] == ids[n] {
                        assert(prefix.contains(id));
                    }
                }
            }
        }
    }
}

/// Resolutions come in the order of their positions in the list.
proof fn lemma_resolution_order<W>(m: Map<u128, Seq<W>>, ids: Seq<u128>)
    ensures
        forall|k: int| #![trigger closed_resolutions(m, ids)[k]] 0 <= k < closed_resolutions(m, ids).len()
            ==> 0 <= closed_resolutions(m, ids)[k].0 < ids.len(),
        forall|k1: int, k2: int| #![trigger closed_resolutions(m, ids)[k1], closed_resolutions(m, ids)[k2]]
            0 <= k1 < k2 < closed_resolutions(m, ids).len() ==> closed_resolutions(m, ids)[k1].0
                < closed_resolutions(m, ids)[k2].0,
    decreases ids.len(),
{
    if ids.len() > 0 {
        let prefix = ids.drop_last();
        lemma_resolution_order(m, prefix);
        let prev = closed_resolutions(m, prefix);
        let r = closed_resolutions(m, ids);
        assert forall|k: int| #![trigger r[k]] 0 <= k < r.len() implies 0 <= r[k].0 < ids.len() by {
            if k < prev.len() {
                assert(r[k] == prev[k]);
            }
        }
        assert forall|k1: int, k2: int| #![trigger r[k1], r[k2]] 0 <= k1 < k2 < r.len() implies r[k1].0 < r[k2].0 by {
            assert(r[k1] == prev[k1]);
            if k2 < prev.len() {
                assert(r[k2] == prev[k2]);
            }
        }
    }
}

/// Every waiting trade of the list gets a resolution.
proof fn lemma_resolution_complete<W>(m: Map<u128, Seq<W>>, ids: Seq<u128>)
    ensures
        forall|j: int| #![trigger ids[j]] 0 <= j < ids.len() && m.contains_key(ids[j]) ==> exists|k: int|
            0 <= k < closed_resolutions(m, ids).len() && ids[closed_resolutions(m, ids)[k].0] == ids[j],
    decreases ids.len(),
{
    if ids.len() > 0 {
        let prefix = ids.drop_last();
        lemma_resolution_complete(m, prefix);
        lemma_resolution_order(m, prefix);
        let prev = closed_resolutions(m, prefix);
        let r = closed_resolutions(m, ids);
        let rest = m.remove_keys(prefix.to_set());
        let id = ids.last();
        let n = ids.len() - 1;
        assert forall|j: int| #![trigger ids[j]] 0 <= j < ids.len() && m.contains_key(ids[j]) implies exists|k: int|
            0 <= k < r.len() && ids[r[k].0] == ids[j] by {
            if prefix.to_set().contains(ids[j]) {
                let i = choose|i: int| 0 <= i < prefix.len() && prefix[i] == ids[j];
                let k = choose|k: int| 0 <= k < prev.len() && prefix[prev[k].0] == prefix[i];
                assert(r[k] == prev[k]);
                assert(prefix[prev[k].0] == ids[prev[k].0]);
            } else {
                if j < n {
                    assert(prefix[j] == ids[j]);
                    assert(prefix.contains(ids[j]));
                }
                assert(j == n);
                assert(rest.contains_key(id));
                assert(r[prev.len() as int] == (n, rest[id]));
            }
        }
    }
}

/// When a list of deals closes, the responders of each waiting trade in the
/// list are released exactly once, at the first position of that trade in
/// the list, and no responder of a trade outside the list is released.
pub proof fn lemma_closed_resolutions<W>(m: Map<u128, Seq<W>>, ids: Seq<u128>)
    ensures
        ({
            let r = closed_resolutions(m, ids);
            &&& forall|k: int| #![trigger r[k]] 0 <= k < r.len() ==> {
                let j = r[k].0;
                &&& 0 <= j < ids.len()
                &&& m.contains_key(ids[j])
                &&& r[k].1 == m[ids[j]]
                &&& forall|i: int| 0 <= i < j ==> ids[i] != ids[j]
            }
            &&& forall|k1: int, k2: int| #![trigger r[k1], r[k2]] 0 <= k1 < k2 < r.len() ==> r[k1].0 < r[k2].0
            &&& forall|j: int| #![trigger ids[j]] 0 <= j < ids.len() && m.contains_key(ids[j]) ==> exists|k: int|
                0 <= k < r.len() && ids[r[k].0] == ids[j]
        }),
{
    lemma_resolution_entries(m, ids);
    lemma_resolution_order(m, ids);
    lemma_resolution_complete(m, ids);
}

/// A deal of an applied list is in the book afterwards: an update of the
/// opened deals holds it among them; a closed deal is among the closed deals,
/// no longer among the opened ones, and no responder waits for it any more.
pub proof fn lemma_deal_list_recorded<D, W>(
    closed: Map<u128, D>,
    opened: Map<u128, D>,
    waiters: Map<u128, Seq<W>>,
    deals: Seq<(u128, D)>,
    i: int,
)
    requires
        0 <= i < deals.len(),
    ensures
        map_of(deals).contains_key(deals[i].0),
        closed.union_prefer_right(map_of(deals)).contains_key(deals[i].0),
        !opened.remove_keys(ids_of(deals)).contains_key(deals[i].0),
        !waiters.remove_keys(ids_of(deals)).contains_key(deals[i].0),
{
    crate::pocketoption::deal_book::lemma_map_of_ids(deals);
    assert(deals.map_values(|e: (u128, D)| e.0)[i] == deals[i].0);
    assert(ids_of(deals).contains(deals[i].0));
}

/// A responder that waits for a trade is released, behind those that were
/// already waiting, when a list holding that trade closes.
pub proof fn lemma_waiter_released<W>(m: Map<u128, Seq<W>>, trade_id: u128, responder: W)
    ensures
        closed_resolutions(with_waiter(m, trade_id, responder), seq![trade_id]) == seq![
            (0int, if m.contains_key(trade_id) { m[trade_id].push(responder) } else { seq![responder] }),
        ],
{
    let ids = seq![trade_id];
    let m2 = with_waiter(m, trade_id, responder);
    assert(ids.drop_last() =~= Seq::<u128>::empty());
    assert(Seq::<u128>::empty().to_set() =~= Set::<u128>::empty());
    assert(m2.remove_keys(Set::<u128>::empty()) =~= m2);
    assert(closed_resolutions(m2, Seq::<u128>::empty()) =~= Seq::<(int, Seq<W>)>::empty());
    assert(ids.last() == trade_id);
    assert(m2.contains_key(trade_id));
    assert(closed_resolutions(m2, ids) =~= Seq::<(int, Seq<W>)>::empty().push((0int, m2[trade_id])));
}


/// A text frame whose first element names a deal event is read by that
/// name: with a second element, the list is processed as the kind the name
/// gives (`updateOpenedDeals` as opened deals, `updateClosedDeals` as closed
/// deals, `successcloseOrder` as a closed order) and nothing is awaited;
/// alone, the name makes that kind awaited. A frame naming anything else
/// is a list only when one was awaited.
pub proof fn lemma_deal_events_by_name(expected: ExpectedMessage, t: Seq<char>, items: Seq<JsonModel>, n: Seq<char>)
    requires
        bracket_array(t) == Some(items),
        items.len() >= 1,
        model_as_str(items[0]) == Some(n),
    ensures
        ({
            let step = deal_step(expected, MessageView::Text(t));
            &&& items.len() >= 2 && n == "updateOpenedDeals"@ ==> step == (
                ExpectedMessage::Idle,
                DealActionView::Process(ExpectedMessage::UpdateOpenedDeals, DealPayloadView::Json(items[1])),
            )
            &&& items.len() >= 2 && n == "updateClosedDeals"@ ==> step == (
                ExpectedMessage::Idle,
                DealActionView::Process(ExpectedMessage::UpdateClosedDeals, DealPayloadView::Json(items[1])),
            )
            &&& items.len() >= 2 && n == "successcloseOrder"@ ==> step == (
                ExpectedMessage::Idle,
                DealActionView::Process(ExpectedMessage::SuccessCloseOrder, DealPayloadView::Json(items[1])),
            )
            &&& items.len() == 1 && n == "updateOpenedDeals"@ ==> step == (ExpectedMessage::UpdateOpenedDeals, DealActionView::Ignore)
            &&& items.len() == 1 && n == "updateClosedDeals"@ ==> step == (ExpectedMessage::UpdateClosedDeals, DealActionView::Ignore)
            &&& items.len() == 1 && n == "successcloseOrder"@ ==> step == (ExpectedMessage::SuccessCloseOrder, DealActionView::Ignore)
            &&& (n != "updateOpenedDeals"@ && n != "updateClosedDeals"@ && n != "successcloseOrder"@) ==> step == (
                if expected != ExpectedMessage::Idle {
                    (ExpectedMessage::Idle, DealActionView::Process(expected, DealPayloadView::Text(t)))
                } else {
                    (ExpectedMessage::Idle, DealActionView::Ignore)
                }
            )
        }),
{
    reveal_strlit("updateOpenedDeals");
    assert("updateOpenedDeals"@.len() == 17 && "updateOpenedDeals"@[0] == 'u' && "updateOpenedDeals"@[6] == 'O');
    reveal_strlit("updateClosedDeals");
    assert("updateClosedDeals"@.len() == 17 && "updateClosedDeals"@[0] == 'u' && "updateClosedDeals"@[6] == 'C');
    reveal_strlit("successcloseOrder");
    assert("successcloseOrder"@.len() == 17 && "successcloseOrder"@[0] == 's' && "successcloseOrder"@[6] == 's');
}

} // verus!
