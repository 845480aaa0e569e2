//! Deal lists and the book of deals: how the deal list of a payload is
//! found (a closed order's `deals`, or a plain list), the trade id of each
//! deal, and how a list updates the opened and closed deals.

use std::collections::HashMap;

use vstd::prelude::*;

use crate::ids::{parse_uuid, uuid_parse};
use crate::json::{json_parse, member_get, model_as_str, model_get, parse_json, str_equal, JsonModel, JsonValue};
use crate::message::utf8_text;
use crate::pocketoption::deals::{DealPayload, DealPayloadView, ExpectedMessage};

verus! {

broadcast use vstd::std_specs::hash::group_hash_axioms;

/// The JSON document that a payload holds: the value itself, or the text
/// (or UTF-8 bytes) parsed as JSON.
pub open spec fn payload_json(p: DealPayloadView) -> Option<JsonModel> {
    match p {
        DealPayloadView::Json(v) => Some(v),
        DealPayloadView::Text(t) => json_parse(t),
        DealPayloadView::Bytes(b) => if vstd::utf8::valid_utf8(b) {
            json_parse(vstd::utf8::decode_utf8(b))
        } else {
            None
        },
    }
}

/// Whether a value can stand for an amount: a number or a text.
pub open spec fn is_amount(v: JsonModel) -> bool {
    v is Number || v is Str
}

/// The deals of a closed order: an object with an amount `profit` and a
/// list `deals`, or the same two fields as a list of two elements.
pub open spec fn close_order_list(v: JsonModel) -> Option<Seq<JsonModel>> {
    match v {
        JsonModel::Object(ms) => match member_get(ms, "profit"@) {
            Some(p) => if is_amount(p) {
                match member_get(ms, "deals"@) {
                    Some(JsonModel::Array(d)) => Some(d),
                    _ => None,
                }
            } else {
                None
            },
            None => None,
        },
        JsonModel::Array(a) => if a.len() == 2 && is_amount(a[0]) && a[1] is Array {
            Some(a[1]->Array_0)
        } else {
            None
        },
        _ => None,
    }
}

/// The trade id of a deal: its `id`, a UUID.
pub open spec fn deal_id(v: JsonModel) -> Option<u128> {
    match model_get(v, "id"@) {
        Some(JsonModel::Str(t)) => uuid_parse(t),
        _ => None,
    }
}

/// Each deal of a list with its trade id, when every deal has one.
pub open spec fn deal_entries(l: Seq<JsonModel>) -> Option<Seq<(u128, JsonModel)>> {
    if forall|i: int| 0 <= i < l.len() ==> (#[trigger] deal_id(l[i])) is Some {
        Some(Seq::new(l.len(), |i: int| (deal_id(l[i])->0, l[i])))
    } else {
        None
    }
}

/// The deals that a JSON document of kind `kind` carries: for a closed
/// order, the deals of the order when they all have ids, else the document
/// read as a plain list of deals.
pub open spec fn deals_in_json(kind: ExpectedMessage, v: JsonModel) -> Option<Seq<(u128, JsonModel)>> {
    if kind == ExpectedMessage::Idle {
        None
    } else if kind == ExpectedMessage::SuccessCloseOrder && close_order_list(v) is Some && deal_entries(
        close_order_list(v)->0,
    ) is Some {
        deal_entries(close_order_list(v)->0)
    } else {
        match v {
            JsonModel::Array(a) => deal_entries(a),
            _ => None,
        }
    }
}

/// The deals that a payload of kind `kind` carries.
pub open spec fn deals_in(kind: ExpectedMessage, p: DealPayloadView) -> Option<Seq<(u128, JsonModel)>> {
    match payload_json(p) {
        Some(v) => deals_in_json(kind, v),
        None => None,
    }
}

/// The models of a list of values.
pub open spec fn models(a: Seq<JsonValue>) -> Seq<JsonModel> {
    Seq::new(a.len(), |i: int| a[i]@)
}

/// The trade id of a deal.
fn deal_id_of(v: &JsonValue) -> (r: Option<u128>)
    ensures
        r == deal_id(v@),
{
    match v.get("id") {
        Some(JsonValue::Str(t)) => parse_uuid(t.as_str()).ok(),
        _ => None,
    }
}

/// The trade ids of the deals of a list, when every deal has one.
fn entry_ids(list: &Vec<JsonValue>) -> (r: Option<Vec<u128>>)
    ensures
        match deal_entries(models(list@)) {
            Some(e) => r matches Some(ids) && ids.len() == e.len() && forall|i: int|
                0 <= i < e.len() ==> #[trigger] ids@[i] == e[i].0,
            None => r is None,
        },
{
    let ghost l = models(list@);
    let mut ids: Vec<u128> = Vec::new();
    let mut i: usize = 0;
    while i < list.len()
        invariant
            i <= list.len(),
            l == models(list@),
            ids.len() == i,
            forall|j: int| 0 <= j < i ==> (#[trigger] deal_id(l[j])) == Some(ids@[j]),
        decreases list.len() - i,
    {
        match deal_id_of(&list[i]) {
            Some(id) => {
                ids.push(id);
            },
            None => {
                assert(deal_id(l[i as int]) is None);
                return None;
            },
        }
        i = i + 1;
    }
    assert(forall|j: int| 0 <= j < l.len() ==> (#[trigger] deal_id(l[j])) is Some);
    Some(ids)
}

/// The models of the members of an object.
pub open spec fn members_model(ms: Seq<(String, JsonValue)>) -> Seq<(Seq<char>, JsonModel)> {
    Seq::new(ms.len(), |i: int| (ms[i].0@, ms[i].1@))
}

/// The position of the first member of `ms` named `key`.
fn member_index(ms: &Vec<(String, JsonValue)>, key: &str) -> (r: Option<usize>)
    ensures
        match member_get(members_model(ms@), key@) {
            Some(m) => r matches Some(j) && j < ms.len() && ms@[j as int].1@ == m,
            None => r is None,
        },
{
    let ghost m = members_model(ms@);
    assert(m.skip(0) =~= m);
    let mut i: usize = 0;
    while i < ms.len()
        invariant
            i <= ms.len(),
            m == members_model(ms@),
            member_get(m, key@) == member_get(m.skip(i as int), key@),
        decreases ms.len() - i,
    {
        assert(m.skip(i as int).drop_first() =~= m.skip(i + 1));
        assert(m.skip(i as int)[0] == m[i as int]);
        if str_equal(ms[i].0.as_str(), key) {
            return Some(i);
        }
        i = i + 1;
    }
    None
}

/// Whether a value can stand for an amount.
fn amount(v: &JsonValue) -> (r: bool)
    ensures
        r == is_amount(v@),
{
    match v {
        JsonValue::Number(_) => true,
        JsonValue::Str(_) => true,
        _ => false,
    }
}

/// Takes the deals of a closed order out of `v`, or gives `v` back.
fn take_close_order(v: JsonValue) -> (r: Result<Vec<JsonValue>, JsonValue>)
    ensures
        match close_order_list(v@) {
            Some(d) => r matches Ok(l) && models(l@) == d,
            None => r matches Err(w) && w@ == v@,
        },
{
    let shaped = match &v {
        JsonValue::Object(_) => match v.get("profit") {
            Some(p) => amount(p) && match v.get("deals") {
                Some(JsonValue::Array(_)) => true,
                _ => false,
            },
            None => false,
        },
        JsonValue::Array(a) => a.len() == 2 && amount(&a[0]) && match &a[1] {
            JsonValue::Array(_) => true,
            _ => false,
        },
        _ => false,
    };
    if !shaped {
        return Err(v);
    }
    let ghost vm = v@;
    match v {
        JsonValue::Object(ms) => {
            assert(vm->Object_0 =~= members_model(ms@));
            match member_index(&ms, "deals") {
                Some(j) => {
                    let mut ms = ms;
                    let ghost before = ms@;
                    let (_, x) = ms.remove(j);
                    let ghost xm = x@;
                    assert(xm == before[j as int].1@);
                    match x {
                        JsonValue::Array(l) => {
                            assert(models(l@) =~= xm->Array_0);
                            Ok(l)
                        },
                        _ => Err(JsonValue::Null),
                    }
                },
                None => Err(JsonValue::Null),
            }
        },
        JsonValue::Array(a) => {
            let mut a = a;
            let ghost before = a@;
            let second = a.remove(1);
            let ghost sm = second@;
            assert(sm == before[1]@);
            assert(sm == vm->Array_0[1]);
            match second {
                JsonValue::Array(l) => {
                    assert(models(l@) =~= sm->Array_0);
                    Ok(l)
                },
                _ => Err(JsonValue::Null),
            }
        },
        _ => Err(JsonValue::Null),
    }
}


/// A closed order's shape rules out reading the same document as a plain
/// list of deals: its first element, an amount, has no id.
proof fn lemma_close_order_not_a_list(v: JsonModel)
    requires
        close_order_list(v) is Some,
    ensures
        match v {
            JsonModel::Array(a) => deal_entries(a) is None,
            _ => true,
        },
{
    if let JsonModel::Array(a) = v {
        assert(deal_id(a[0]) is None);
    }
}

/// The deals that `payload`, announced as a list of kind `kind`, carries:
/// their trade ids and, alongside, the deals as JSON values, in order.
/// `None` when the payload is not JSON, or is no deal list of that kind, or
/// holds a deal without a UUID `id`.
pub fn deals_of_payload(kind: ExpectedMessage, payload: DealPayload) -> (r: Option<(Vec<u128>, Vec<JsonValue>)>)
    ensures
        match deals_in(kind, payload@) {
            Some(e) => r matches Some((ids, items)) && ids.len() == e.len() && items.len() == e.len()
                && forall|i: int| 0 <= i < e.len() ==> (#[trigger] ids@[i], items@[i]@) == e[i],
            None => r is None,
        },
{
    let v = match payload {
        DealPayload::Json(v) => v,
        DealPayload::Text(t) => match parse_json(t.as_str()) {
            Some(v) => v,
            None => {
                return None;
            },
        },
        DealPayload::Bytes(b) => match utf8_text(b.as_slice()) {
            Some(t) => match parse_json(t.as_str()) {
                Some(v) => v,
                None => {
                    return None;
                },
            },
            None => {
                return None;
            },
        },
    };
    let ghost vm = v@;
    assert(payload_json(payload@) == Some(vm));
    if kind == ExpectedMessage::Idle {
        return None;
    }
    let v = if kind == ExpectedMessage::SuccessCloseOrder {
        match take_close_order(v) {
            Ok(list) => {
                proof {
                    lemma_close_order_not_a_list(vm);
                }
                return match entry_ids(&list) {
                    Some(ids) => Some((ids, list)),
                    None => None,
                };
            },
            Err(w) => w,
        }
    } else {
        v
    };
    match v {
        JsonValue::Array(list) => {
            assert(models(list@) =~= vm->Array_0);
            match entry_ids(&list) {
                Some(ids) => Some((ids, list)),
                None => None,
            }
        },
        _ => None,
    }
}

/// The map of a list of entries: each id to its deal, a later entry of an
/// id replacing an earlier one.
pub open spec fn map_of<D>(entries: Seq<(u128, D)>) -> Map<u128, D>
    decreases entries.len(),
{
    if entries.len() == 0 {
        Map::empty()
    } else {
        map_of(entries.drop_last()).insert(entries.last().0, entries.last().1)
    }
}

/// The ids of a list of entries.
pub open spec fn ids_of<D>(entries: Seq<(u128, D)>) -> Set<u128> {
    entries.map_values(|e: (u128, D)| e.0).to_set()
}

/// The opened and closed deals known so far, by trade id; `D` is a deal.
pub struct DealBook<D> {
    opened: HashMap<u128, D>,
    closed: HashMap<u128, D>,
}

impl<D> DealBook<D> {
    /// The deals still open, by trade id.
    pub closed spec fn opened(&self) -> Map<u128, D> {
        self.opened@
    }

    /// The deals that have closed, by trade id.
    pub closed spec fn closed_deals(&self) -> Map<u128, D> {
        self.closed@
    }

    /// A book with no deal.
    pub fn new() -> (b: Self)
        ensures
            b.opened() == Map::<u128, D>::empty(),
            b.closed_deals() == Map::<u128, D>::empty(),
    {
        DealBook { opened: HashMap::new(), closed: HashMap::new() }
    }

    /// Replaces the opened deals by the list the platform sent.
    pub fn replace_opened(&mut self, deals: Vec<(u128, D)>)
        ensures
            final(self).opened() == map_of(deals@),
            final(self).closed_deals() == old(self).closed_deals(),
    {
        let mut opened: HashMap<u128, D> = HashMap::new();
        let mut deals = deals;
        let ghost all = deals@;
        let mut k: usize = 0;
        let n = deals.len();
        assert(all.take(0) =~= Seq::<(u128, D)>::empty());
        assert(all.skip(0) =~= all);
        while deals.len() > 0
            invariant
                k + deals.len() == all.len(),
                all.len() == n,
                deals@ == all.skip(k as int),
                opened@ == map_of(all.take(k as int)),
            decreases deals.len(),
        {
            let ghost before = deals@;
            let (id, d) = deals.remove(0);
            assert(before[0] == all[k as int]);
            assert(all.take(k + 1).drop_last() =~= all.take(k as int));
            assert(all.take(k + 1).last() == all[k as int]);
            opened.insert(id, d);
            assert(deals@ =~= all.skip(k + 1));
            k = k + 1;
        }
        assert(all.take(all.len() as int) =~= all);
        self.opened = opened;
    }

    /// Records closed deals: each leaves the opened deals and enters the
    /// closed ones, a later entry of an id replacing an earlier one.
    pub fn close(&mut self, deals: Vec<(u128, D)>)
        ensures
            final(self).closed_deals() == old(self).closed_deals().union_prefer_right(map_of(deals@)),
            final(self).opened() == old(self).opened().remove_keys(ids_of(deals@)),
    {
        let ghost c0 = self.closed@;
        let ghost o0 = self.opened@;
        let mut deals = deals;
        let ghost all = deals@;
        let mut k: usize = 0;
        let n = deals.len();
        assert(all.take(0) =~= Seq::<(u128, D)>::empty());
        assert(all.skip(0) =~= all);
        assert(c0.union_prefer_right(Map::<u128, D>::empty()) =~= c0);
        assert(ids_of(all.take(0)) =~= Set::<u128>::empty());
        assert(o0.remove_keys(Set::<u128>::empty()) =~= o0);
        while deals.len() > 0
            invariant
                k + deals.len() == all.len(),
                all.len() == n,
                deals@ == all.skip(k as int),
                self.closed@ == c0.union_prefer_right(map_of(all.take(k as int))),
                self.opened@ == o0.remove_keys(ids_of(all.take(k as int))),
            decreases deals.len(),
        {
            let ghost before = deals@;
            let ghost pre = all.take(k as int);
            let ghost next = all.take(k + 1);
            let (id, d) = deals.remove(0);
            assert(before[0] == all[k as int]);
            assert(next.drop_last() =~= pre);
            assert(next.last() == all[k as int]);
            self.opened.remove(&id);
            self.closed.insert(id, d);
            proof {
                assert(self.closed@ =~= c0.union_prefer_right(map_of(next)));
                assert(ids_of(next) =~= ids_of(pre).insert(id)) by {
                    assert(next.map_values(|e: (u128, D)| e.0) =~= pre.map_values(|e: (u128, D)| e.0).push(id));
                    pre.map_values(|e: (u128, D)| e.0).lemma_push_to_set_commute(id);
                }
                assert(self.opened@ =~= o0.remove_keys(ids_of(next)));
            }
            assert(deals@ =~= all.skip(k + 1));
            k = k + 1;
        }
        assert(all.take(all.len() as int) =~= all);
    }

    /// Whether the deal with this trade id is still open.
    pub fn is_open(&self, trade_id: u128) -> (r: bool)
        ensures
            r == self.opened().contains_key(trade_id),
    {
        self.opened.contains_key(&trade_id)
    }

    /// The open deal with this trade id.
    pub fn opened_deal(&self, trade_id: u128) -> (r: Option<&D>)
        ensures
            match r {
                Some(d) => self.opened().contains_key(trade_id) && *d == self.opened()[trade_id],
                None => !self.opened().contains_key(trade_id),
            },
    {
        self.opened.get(&trade_id)
    }

    /// The closed deal with this trade id.
    pub fn closed_deal(&self, trade_id: u128) -> (r: Option<&D>)
        ensures
            match r {
                Some(d) => self.closed_deals().contains_key(trade_id) && *d == self.closed_deals()[trade_id],
                None => !self.closed_deals().contains_key(trade_id),
            },
    {
        self.closed.get(&trade_id)
    }
}

/// The ids that a list of entries maps are exactly the ids of the list.
pub proof fn lemma_map_of_ids<D>(entries: Seq<(u128, D)>)
    ensures
        map_of(entries).dom() == ids_of(entries),
    decreases entries.len(),
{
    if entries.len() > 0 {
        let pre = entries.drop_last();
        lemma_map_of_ids(pre);
        assert(entries.map_values(|e: (u128, D)| e.0) =~= pre.map_values(|e: (u128, D)| e.0).push(entries.last().0));
        pre.map_values(|e: (u128, D)| e.0).lemma_push_to_set_commute(entries.last().0);
        assert(map_of(entries).dom() =~= ids_of(entries));
    } else {
        assert(ids_of(entries) =~= Set::<u128>::empty());
        assert(map_of(entries).dom() =~= Set::<u128>::empty());
    }
}


/// The trade id a deal names: its `id` member, a UUID text.
pub open spec fn named_trade(v: JsonModel) -> Option<u128> {
    if v is Object && member_get(v->Object_0, "id"@) is Some && member_get(v->Object_0, "id"@)->0 is Str {
        uuid_parse(member_get(v->Object_0, "id"@)->0->Str_0)
    } else {
        None
    }
}

/// Whether `e` pairs each deal of `d`, in order, with the trade id it names.
pub open spec fn pairs_with_ids(e: Seq<(u128, JsonModel)>, d: Seq<JsonModel>) -> bool {
    &&& e.len() == d.len()
    &&& forall|i: int| 0 <= i < d.len() ==> (#[trigger] e[i]).1 == d[i] && named_trade(d[i]) == Some(e[i].0)
}

/// How deal lists are found: a list of deals that all name their trade is
/// read, in order, for any deal kind; a closed order (an object with a
/// number `profit` and a list `deals` of such deals) is read as its deals
/// for a closed order, and refused as a list of any other kind; no deal list
/// is read when none is awaited; and a list holding a deal that names no
/// trade is refused.
pub proof fn lemma_deal_lists_read(kind: ExpectedMessage, v: JsonModel)
    ensures
        v is Array && kind != ExpectedMessage::Idle && (forall|i: int|
            0 <= i < v->Array_0.len() ==> (#[trigger] named_trade(v->Array_0[i])) is Some) ==> deals_in_json(kind, v)
            is Some && pairs_with_ids(deals_in_json(kind, v)->0, v->Array_0),
        v is Object ==> ({
            let profit = member_get(v->Object_0, "profit"@);
            let deals = member_get(v->Object_0, "deals"@);
            profit is Some && profit->0 is Number && deals is Some && deals->0 is Array && (forall|i: int|
                0 <= i < deals->0->Array_0.len() ==> (#[trigger] named_trade(deals->0->Array_0[i])) is Some)
                ==> deals_in_json(ExpectedMessage::SuccessCloseOrder, v) is Some && pairs_with_ids(
                deals_in_json(ExpectedMessage::SuccessCloseOrder, v)->0,
                deals->0->Array_0,
            )
        }),
        v is Object && kind != ExpectedMessage::SuccessCloseOrder ==> deals_in_json(kind, v) is None,
        deals_in_json(ExpectedMessage::Idle, v) is None,
        v is Array && (exists|i: int| 0 <= i < v->Array_0.len() && (#[trigger] named_trade(v->Array_0[i])) is None)
            && kind != ExpectedMessage::SuccessCloseOrder ==> deals_in_json(kind, v) is None,
{
    assert forall|x: JsonModel| #[trigger] deal_id(x) == named_trade(x) by {}
    if let JsonModel::Array(a) = v {
        if kind != ExpectedMessage::Idle && (forall|i: int| 0 <= i < a.len() ==> (#[trigger] named_trade(a[i])) is Some) {
            assert(forall|i: int| 0 <= i < a.len() ==> (#[trigger] deal_id(a[i])) is Some);
            if kind == ExpectedMessage::SuccessCloseOrder && close_order_list(v) is Some {
                lemma_close_order_not_a_list(v);
                assert(deal_id(a[0]) is None);
            }
        }
        if exists|i: int| 0 <= i < a.len() && (#[trigger] named_trade(a[i])) is None {
            let i = choose|i: int| 0 <= i < a.len() && (#[trigger] named_trade(a[i])) is None;
            assert(deal_id(a[i]) is None);
        }
    }
    if let JsonModel::Object(ms) = v {
        if member_get(ms, "deals"@) is Some && member_get(ms, "deals"@)->0 is Array {
            let d = member_get(ms, "deals"@)->0->Array_0;
            let p = member_get(ms, "profit"@);
            if p is Some && p->0 is Number && forall|i: int| 0 <= i < d.len() ==> (#[trigger] named_trade(d[i])) is Some {
                assert(forall|i: int| 0 <= i < d.len() ==> (#[trigger] deal_id(d[i])) is Some);
                assert(close_order_list(v) == Some(d));
                assert(deal_entries(d) is Some);
                let e = deal_entries(d)->0;
                assert(deals_in_json(ExpectedMessage::SuccessCloseOrder, v) == Some(e));
                assert forall|i: int| 0 <= i < d.len() implies (#[trigger] e[i]).1 == d[i] && named_trade(d[i]) == Some(e[i].0) by {
                    assert(deal_id(d[i]) == named_trade(d[i]));
                }
            }
        }
    }
}

} // verus!
