//! The pending table: which calls are outstanding, and what has been
//! delivered to each.
//!
//! Every call that was sent and not yet collected has a slot under its id.
//! A slot waits until a response or a failure of the transport is
//! delivered to it, once; the caller then takes the delivery, and the slot
//! is gone. The table is plain data: the program around it puts it behind
//! a lock and wakes the callers.

use vstd::prelude::*;
use rmpv::Value;
use crate::message::outcome_model;
use crate::value::ValueModel;

verus! {

/// What a caller receives for a call.
#[derive(PartialEq, Debug)]
pub enum Delivery {
    /// The response of the peer: its result, or the error it reports.
    Outcome(Result<Value, Value>),
    /// The connection ended before a response came.
    Closed,
}

pub enum DeliveryView {
    Outcome(Result<ValueModel, ValueModel>),
    Closed,
}

impl View for Delivery {
    type V = DeliveryView;

    open spec fn view(&self) -> DeliveryView {
        match *self {
            Delivery::Outcome(result) => DeliveryView::Outcome(outcome_model(result)),
            Delivery::Closed => DeliveryView::Closed,
        }
    }
}

/// Why no id was allocated.
#[derive(Clone, Copy, Debug, PartialEq, Eq, Structural)]
pub enum AllocateError {
    /// The table has been failed: the connection is gone.
    Closed,
    /// Every id has an outstanding slot.
    Exhausted,
}

/// How far `to` lies after `from`, counting upwards and from the largest
/// id round to 0.
pub open spec fn distance(from: u32, to: u32) -> int {
    if to >= from {
        to - from
    } else {
        to - from + 0x1_0000_0000
    }
}

/// The id after `id`: the largest id is followed by 0.
pub open spec fn successor(id: u32) -> u32 {
    if id == u32::MAX {
        0
    } else {
        (id + 1) as u32
    }
}

/// The state of a waiting slot after the connection has ended, and of a
/// slot that holds a delivery already.
pub open spec fn closed_slot(slot: Option<DeliveryView>) -> Option<DeliveryView> {
    match slot {
        None => Some(DeliveryView::Closed),
        Some(d) => Some(d),
    }
}

/// The table as mathematics. A slot maps its id to `None` while it waits
/// and to the delivery once it has one.
pub struct PendingView {
    pub next_id: u32,
    pub closed: bool,
    pub slots: Map<u32, Option<DeliveryView>>,
}

impl PendingView {
    /// Whether a call with this id is outstanding.
    pub open spec fn outstanding(self, id: u32) -> bool {
        self.slots.dom().contains(id)
    }

    /// Whether the slot of this id exists and has no delivery yet.
    pub open spec fn waiting(self, id: u32) -> bool {
        self.slots.dom().contains(id) && self.slots[id] is None
    }

    /// Whether `id` is the id to allocate next: the first one from
    /// `next_id` on, going round, that is not outstanding.
    pub open spec fn is_next_free(self, id: u32) -> bool {
        &&& !self.outstanding(id)
        &&& forall|other: u32|
            distance(self.next_id, other) < distance(self.next_id, id) ==> self.outstanding(other)
    }

    /// The table after `id` was allocated.
    pub open spec fn allocated(self, id: u32) -> PendingView {
        PendingView {
            next_id: successor(id),
            closed: self.closed,
            slots: self.slots.insert(id, None),
        }
    }

    /// The table after a response for `id` arrived: a waiting slot takes
    /// the outcome, and anything else leaves the table as it is.
    pub open spec fn resolved(self, id: u32, outcome: Result<ValueModel, ValueModel>) -> PendingView {
        if self.waiting(id) {
            PendingView {
                next_id: self.next_id,
                closed: self.closed,
                slots: self.slots.insert(id, Some(DeliveryView::Outcome(outcome))),
            }
        } else {
            self
        }
    }

    /// The table after the connection ended: every waiting slot holds
    /// `Closed`, the others keep what they hold.
    pub open spec fn failed(self) -> PendingView {
        PendingView {
            next_id: self.next_id,
            closed: true,
            slots: self.slots.map_values(|slot: Option<DeliveryView>| closed_slot(slot)),
        }
    }

    /// The table after the delivery of `id` was taken.
    pub open spec fn taken(self, id: u32) -> PendingView {
        PendingView { next_id: self.next_id, closed: self.closed, slots: self.slots.remove(id) }
    }
}

/// The table after the responses in `responses` arrived, in their order:
/// each is an id with its outcome.
pub open spec fn resolved_all(
    table: PendingView,
    responses: Seq<(u32, Result<ValueModel, ValueModel>)>,
) -> PendingView
    decreases responses.len(),
{
    if responses.len() == 0 {
        table
    } else {
        resolved_all(table, responses.drop_last()).resolved(
            responses.last().0,
            responses.last().1,
        )
    }
}

/// Whether no two of the responses have the same id.
pub open spec fn distinct_ids(responses: Seq<(u32, Result<ValueModel, ValueModel>)>) -> bool {
    forall|i: int, j: int|
        0 <= i < j < responses.len() ==> (#[trigger] responses[i]).0 != (#[trigger] responses[j]).0
}

/// Ids given to calls that are outstanding together are distinct: an id
/// that is allocated differs from every outstanding id, and so do two ids
/// that are allocated one after the other.
pub proof fn lemma_allocated_ids_are_distinct(table: PendingView, first: u32, second: u32)
    requires
        table.is_next_free(first),
        table.allocated(first).is_next_free(second),
    ensures
        !table.outstanding(first),
        first != second,
        table.allocated(first).allocated(second).waiting(first),
        table.allocated(first).allocated(second).waiting(second),
{
}

/// Responses for different ids may arrive in either order: the table ends
/// up the same.
pub proof fn lemma_resolve_commutes(
    table: PendingView,
    a: u32,
    outcome_a: Result<ValueModel, ValueModel>,
    b: u32,
    outcome_b: Result<ValueModel, ValueModel>,
)
    requires
        a != b,
    ensures
        table.resolved(a, outcome_a).resolved(b, outcome_b) == table.resolved(
            b,
            outcome_b,
        ).resolved(a, outcome_a),
{
    let left = table.resolved(a, outcome_a).resolved(b, outcome_b);
    let right = table.resolved(b, outcome_b).resolved(a, outcome_a);
    assert(left.slots =~= right.slots);
}

/// Responses change no slot but those of their ids.
proof fn lemma_resolved_all_frame(
    table: PendingView,
    responses: Seq<(u32, Result<ValueModel, ValueModel>)>,
    id: u32,
)
    requires
        forall|i: int| 0 <= i < responses.len() ==> (#[trigger] responses[i]).0 != id,
    ensures
        resolved_all(table, responses).slots.dom() == table.slots.dom(),
        table.outstanding(id) ==> resolved_all(table, responses).slots[id] == table.slots[id],
    decreases responses.len(),
{
    if responses.len() > 0 {
        let init = responses.drop_last();
        assert forall|i: int| 0 <= i < init.len() implies (#[trigger] init[i]).0 != id by {
            assert(init[i] == responses[i]);
        }
        lemma_resolved_all_frame(table, init, id);
        assert(responses.last() == responses[responses.len() - 1]);
        let before = resolved_all(table, init);
        assert(before.resolved(responses.last().0, responses.last().1).slots.dom()
            =~= before.slots.dom());
    } else {
    }
}

/// Responses may arrive in any order: when they answer calls that wait,
/// each call once, every call receives the outcome of its own response.
pub proof fn lemma_each_call_gets_its_outcome(
    table: PendingView,
    responses: Seq<(u32, Result<ValueModel, ValueModel>)>,
    k: int,
)
    requires
        distinct_ids(responses),
        forall|i: int| 0 <= i < responses.len() ==> table.waiting((#[trigger] responses[i]).0),
        0 <= k < responses.len(),
    ensures
        resolved_all(table, responses).slots.dom() == table.slots.dom(),
        resolved_all(table, responses).slots[responses[k].0] == Some(
            DeliveryView::Outcome(responses[k].1),
        ),
    decreases responses.len(),
{
    let init = responses.drop_last();
    let last = responses.last();
    let before = resolved_all(table, init);
    assert(last == responses[responses.len() - 1]);
    assert forall|i: int| 0 <= i < init.len() implies (#[trigger] init[i]).0 != last.0 by {
        assert(init[i] == responses[i]);
    }
    lemma_resolved_all_frame(table, init, last.0);
    assert(before.waiting(last.0));
    assert(before.resolved(last.0, last.1).slots.dom() =~= before.slots.dom());
    if k < init.len() {
        assert(distinct_ids(init)) by {
            assert forall|i: int, j: int| 0 <= i < j < init.len() implies (#[trigger] init[i]).0 != (
            #[trigger] init[j]).0 by {
                assert(init[i] == responses[i]);
                assert(init[j] == responses[j]);
            }
        }
        assert forall|i: int| 0 <= i < init.len() implies table.waiting((#[trigger] init[i]).0) by {
            assert(init[i] == responses[i]);
        }
        lemma_each_call_gets_its_outcome(table, init, k);
        assert(init[k] == responses[k]);
    }
}

/// In particular the responses may arrive in the reverse of the order in
/// which the calls were made: every call still receives its own outcome.
pub proof fn lemma_reverse_order_delivers(
    table: PendingView,
    responses: Seq<(u32, Result<ValueModel, ValueModel>)>,
    k: int,
)
    requires
        distinct_ids(responses),
        forall|i: int| 0 <= i < responses.len() ==> table.waiting((#[trigger] responses[i]).0),
        0 <= k < responses.len(),
    ensures
        resolved_all(table, responses.reverse()).slots[responses[k].0] == Some(
            DeliveryView::Outcome(responses[k].1),
        ),
{
    let reversed = responses.reverse();
    let n = responses.len() as int;
    assert forall|i: int| 0 <= i < n implies #[trigger] reversed[i] == responses[n - 1 - i] by {}
    assert(distinct_ids(reversed)) by {
        assert forall|i: int, j: int| 0 <= i < j < reversed.len() implies (#[trigger] reversed[i]).0
            != (#[trigger] reversed[j]).0 by {
            assert(reversed[i] == responses[n - 1 - i]);
            assert(reversed[j] == responses[n - 1 - j]);
        }
    }
    assert forall|i: int| 0 <= i < reversed.len() implies table.waiting(
        (#[trigger] reversed[i]).0,
    ) by {
        assert(reversed[i] == responses[n - 1 - i]);
    }
    lemma_each_call_gets_its_outcome(table, reversed, n - 1 - k);
    assert(reversed[n - 1 - k] == responses[k]);
}

/// A delivery is final: once a slot holds one, neither a further response
/// for its id nor the end of the connection changes what the caller will
/// take. So each slot is delivered to once.
pub proof fn lemma_delivery_is_final(
    table: PendingView,
    id: u32,
    outcome: Result<ValueModel, ValueModel>,
)
    requires
        table.outstanding(id),
        table.slots[id] is Some,
    ensures
        table.resolved(id, outcome) == table,
        table.failed().slots[id] == table.slots[id],
{
}

/// When the connection ends, each call that waits receives `Closed`, and
/// nothing else changes: no slot appears or goes, no slot that holds a
/// delivery loses it, and no slot waits any longer. So as many `Closed`
/// are delivered as calls were waiting, one to each.
pub proof fn lemma_fail_all_closes_each_waiting_call(table: PendingView)
    ensures
        table.failed().slots.dom() == table.slots.dom(),
        forall|id: u32| table.waiting(id) ==> table.failed().slots[id] == Some(DeliveryView::Closed),
        forall|id: u32|
            table.outstanding(id) && !table.waiting(id) ==> table.failed().slots[id]
                == table.slots[id],
        forall|id: u32| !table.failed().waiting(id),
        Set::new(|id: u32| table.outstanding(id) && table.failed().slots[id] != table.slots[id])
            == Set::new(|id: u32| table.waiting(id)),
{
    assert(Set::new(|id: u32| table.outstanding(id) && table.failed().slots[id] != table.slots[id])
        =~= Set::new(|id: u32| table.waiting(id)));
}

struct Slot {
    id: u32,
    delivery: Option<Delivery>,
}

impl Slot {
    spec fn state(self) -> Option<DeliveryView> {
        match self.delivery {
            None => None,
            Some(d) => Some(d@),
        }
    }
}

spec fn has_id(slots: Seq<Slot>, id: u32) -> bool {
    exists|i: int| 0 <= i < slots.len() && #[trigger] slots[i].id == id
}

spec fn index_of(slots: Seq<Slot>, id: u32) -> int {
    choose|i: int| 0 <= i < slots.len() && #[trigger] slots[i].id == id
}

spec fn distinct(slots: Seq<Slot>) -> bool {
    forall|i: int, j: int| 0 <= i < j < slots.len() ==> slots[i].id != slots[j].id
}

spec fn slot_map(slots: Seq<Slot>) -> Map<u32, Option<DeliveryView>> {
    Map::new(|id: u32| has_id(slots, id), |id: u32| slots[index_of(slots, id)].state())
}

proof fn lemma_slot_at(slots: Seq<Slot>, i: int)
    requires
        distinct(slots),
        0 <= i < slots.len(),
    ensures
        has_id(slots, slots[i].id),
        index_of(slots, slots[i].id) == i,
        slot_map(slots).dom().contains(slots[i].id),
        slot_map(slots)[slots[i].id] == slots[i].state(),
{
    let j = index_of(slots, slots[i].id);
    assert(slots[j].id == slots[i].id);
    if j < i {
        assert(slots[j].id != slots[i].id);
    } else if i < j {
        assert(slots[i].id != slots[j].id);
    }
}

proof fn lemma_push(slots: Seq<Slot>, slot: Slot)
    requires
        distinct(slots),
        !has_id(slots, slot.id),
    ensures
        distinct(slots.push(slot)),
        slot_map(slots.push(slot)) == slot_map(slots).insert(slot.id, slot.state()),
{
    let after = slots.push(slot);
    assert(distinct(after)) by {
        assert forall|i: int, j: int| 0 <= i < j < after.len() implies after[i].id != after[j].id by {
            if j == slots.len() {
                assert(slots[i].id == after[i].id);
            } else {
                assert(slots[i].id != slots[j].id);
            }
        }
    }
    assert forall|id: u32| #[trigger]
        slot_map(after).dom().contains(id) == slot_map(slots).insert(
            slot.id,
            slot.state(),
        ).dom().contains(id) by {
        if has_id(after, id) {
            let i = index_of(after, id);
            if i < slots.len() {
                assert(slots[i].id == id);
            }
        }
        if has_id(slots, id) {
            let i = index_of(slots, id);
            assert(after[i].id == id);
        }
        if id == slot.id {
            assert(after[slots.len() as int].id == id);
        }
    }
    assert forall|id: u32| #[trigger] slot_map(after).dom().contains(id) implies slot_map(after)[id]
        == slot_map(slots).insert(slot.id, slot.state())[id] by {
        let i = index_of(after, id);
        lemma_slot_at(after, i);
        if i < slots.len() {
            lemma_slot_at(slots, i);
        }
    }
    assert(slot_map(after) =~= slot_map(slots).insert(slot.id, slot.state()));
}

proof fn lemma_update(slots: Seq<Slot>, i: int, slot: Slot)
    requires
        distinct(slots),
        0 <= i < slots.len(),
        slot.id == slots[i].id,
    ensures
        distinct(slots.update(i, slot)),
        slot_map(slots.update(i, slot)) == slot_map(slots).insert(slot.id, slot.state()),
{
    let after = slots.update(i, slot);
    assert(distinct(after)) by {
        assert forall|a: int, b: int| 0 <= a < b < after.len() implies after[a].id != after[b].id by {
            assert(slots[a].id != slots[b].id);
        }
    }
    assert forall|id: u32| #[trigger]
        slot_map(after).dom().contains(id) == slot_map(slots).insert(
            slot.id,
            slot.state(),
        ).dom().contains(id) by {
        if has_id(after, id) {
            let k = index_of(after, id);
            assert(slots[k].id == id);
        }
        if has_id(slots, id) {
            let k = index_of(slots, id);
            assert(after[k].id == id);
        }
        if id == slot.id {
            assert(after[i].id == id);
        }
    }
    assert forall|id: u32| #[trigger] slot_map(after).dom().contains(id) implies slot_map(after)[id]
        == slot_map(slots).insert(slot.id, slot.state())[id] by {
        let k = index_of(after, id);
        lemma_slot_at(after, k);
        lemma_slot_at(slots, k);
    }
    assert(slot_map(after) =~= slot_map(slots).insert(slot.id, slot.state()));
}

proof fn lemma_remove(slots: Seq<Slot>, i: int)
    requires
        distinct(slots),
        0 <= i < slots.len(),
    ensures
        distinct(slots.remove(i)),
        slot_map(slots.remove(i)) == slot_map(slots).remove(slots[i].id),
{
    let after = slots.remove(i);
    assert forall|a: int| 0 <= a < after.len() implies #[trigger] after[a] == slots[if a < i {
        a
    } else {
        a + 1
    }] by {}
    assert(distinct(after)) by {
        assert forall|a: int, b: int| 0 <= a < b < after.len() implies after[a].id != after[b].id by {
            let a0 = if a < i { a } else { a + 1 };
            let b0 = if b < i { b } else { b + 1 };
            assert(after[a] == slots[a0]);
            assert(after[b] == slots[b0]);
            assert(slots[a0].id != slots[b0].id);
        }
    }
    assert forall|id: u32| #[trigger]
        slot_map(after).dom().contains(id) == slot_map(slots).remove(slots[i].id).dom().contains(
            id,
        ) by {
        if has_id(after, id) {
            let k = index_of(after, id);
            let k0 = if k < i { k } else { k + 1 };
            assert(after[k] == slots[k0]);
            assert(slots[k0].id == id);
            lemma_slot_at(slots, k0);
            lemma_slot_at(slots, i);
        }
        if has_id(slots, id) && id != slots[i].id {
            let k = index_of(slots, id);
            let k1 = if k < i { k } else { k - 1 };
            assert(after[k1] == slots[k]);
            assert(after[k1].id == id);
        }
    }
    assert forall|id: u32| #[trigger] slot_map(after).dom().contains(id) implies slot_map(after)[id]
        == slot_map(slots).remove(slots[i].id)[id] by {
        let k = index_of(after, id);
        let k0 = if k < i { k } else { k + 1 };
        assert(after[k] == slots[k0]);
        lemma_slot_at(after, k);
        lemma_slot_at(slots, k0);
    }
    assert(slot_map(after) =~= slot_map(slots).remove(slots[i].id));
}

/// The place of the slot with this id, if there is one.
fn find(slots: &Vec<Slot>, id: u32) -> (r: Option<usize>)
    ensures
        match r {
            Some(i) => i < slots.len() && slots@[i as int].id == id,
            None => !has_id(slots@, id),
        },
{
    let mut i: usize = 0;
    while i < slots.len()
        invariant
            i <= slots.len(),
            forall|j: int| 0 <= j < i ==> slots@[j].id != id,
        decreases slots.len() - i,
    {
        if slots[i].id == id {
            return Some(i);
        }
        i += 1;
    }
    None
}

/// The pending table of one client.
pub struct PendingTable {
    next_id: u32,
    closed: bool,
    slots: Vec<Slot>,
}

impl View for PendingTable {
    type V = PendingView;

    closed spec fn view(&self) -> PendingView {
        PendingView { next_id: self.next_id, closed: self.closed, slots: slot_map(self.slots@) }
    }
}

impl PendingTable {
    #[verifier::type_invariant]
    spec fn no_two_slots_share_an_id(self) -> bool {
        distinct(self.slots@)
    }

    /// An open table without slots, whose first id is 0.
    pub fn new() -> (table: Self)
        ensures
            table@ == (PendingView { next_id: 0, closed: false, slots: Map::empty() }),
    {
        let table = PendingTable { next_id: 0, closed: false, slots: Vec::new() };
        assert(table@.slots =~= Map::empty());
        table
    }

    /// An open table without slots, whose first id is `first`.
    pub fn starting_at(first: u32) -> (table: Self)
        ensures
            table@ == (PendingView { next_id: first, closed: false, slots: Map::empty() }),
    {
        let table = PendingTable { next_id: first, closed: false, slots: Vec::new() };
        assert(table@.slots =~= Map::empty());
        table
    }

    /// Whether the table has been failed.
    pub fn is_closed(&self) -> (closed: bool)
        ensures
            closed == self@.closed,
    {
        self.closed
    }

    /// Whether a call with this id is outstanding.
    pub fn is_outstanding(&self, id: u32) -> (outstanding: bool)
        ensures
            outstanding == self@.outstanding(id),
    {
        find(&self.slots, id).is_some()
    }

    /// Whether the slot of this id exists and has no delivery yet.
    pub fn is_waiting(&self, id: u32) -> (waiting: bool)
        ensures
            waiting == self@.waiting(id),
    {
        proof {
            use_type_invariant(self);
        }
        match find(&self.slots, id) {
            Some(i) => {
                proof {
                    lemma_slot_at(self.slots@, i as int);
                }
                self.slots[i].delivery.is_none()
            },
            None => false,
        }
    }

    /// Reserves a fresh id and opens its slot. The id is the first one
    /// from `next_id` on, going round, that no outstanding call has.
    /// Fails, and changes nothing, once the table has been failed or
    /// while every id is outstanding.
    pub fn allocate(&mut self) -> (r: Result<u32, AllocateError>)
        ensures
            match r {
                Ok(id) => {
                    &&& !old(self)@.closed
                    &&& old(self)@.is_next_free(id)
                    &&& final(self)@ == old(self)@.allocated(id)
                },
                Err(AllocateError::Closed) => old(self)@.closed && final(self)@ == old(self)@,
                Err(AllocateError::Exhausted) => !old(self)@.closed && (forall|id: u32|
                    old(self)@.outstanding(id)) && final(self)@ == old(self)@,
            },
    {
        proof {
            use_type_invariant(&*self);
        }
        if self.closed {
            return Err(AllocateError::Closed);
        }
        let start = self.next_id;
        let mut candidate = start;
        let mut probed: u64 = 0;
        while probed < 0x1_0000_0000
            invariant
                probed <= 0x1_0000_0000,
                probed < 0x1_0000_0000 ==> distance(start, candidate) == probed,
                forall|other: u32| distance(start, other) < probed ==> has_id(self.slots@, other),
                *self == *old(self),
                start == self.next_id,
                !self.closed,
                distinct(self.slots@),
            decreases 0x1_0000_0000 - probed,
        {
            if find(&self.slots, candidate).is_none() {
                let mut slots: Vec<Slot> = Vec::new();
                core::mem::swap(&mut slots, &mut self.slots);
                proof {
                    lemma_push(slots@, Slot { id: candidate, delivery: None });
                }
                slots.push(Slot { id: candidate, delivery: None });
                self.slots = slots;
                self.next_id = if candidate == u32::MAX {
                    0
                } else {
                    candidate + 1
                };
                return Ok(candidate);
            }
            assert forall|other: u32| distance(start, other) < probed + 1 implies has_id(
                self.slots@,
                other,
            ) by {
                if distance(start, other) == probed {
                    assert(other == candidate);
                }
            }
            candidate = if candidate == u32::MAX {
                0
            } else {
                candidate + 1
            };
            probed += 1;
        }
        assert forall|id: u32| old(self)@.outstanding(id) by {
            assert(distance(start, id) < probed);
        }
        Err(AllocateError::Exhausted)
    }

    /// Delivers the outcome of a response to the slot of its id. Says
    /// whether it was delivered: a response for an id that has no slot, or
    /// whose slot holds a delivery already, is dropped and the table stays
    /// as it is.
    pub fn resolve(&mut self, id: u32, outcome: Result<Value, Value>) -> (delivered: bool)
        ensures
            delivered == old(self)@.waiting(id),
            final(self)@ == old(self)@.resolved(id, outcome_model(outcome)),
    {
        proof {
            use_type_invariant(&*self);
        }
        match find(&self.slots, id) {
            Some(i) => {
                proof {
                    lemma_slot_at(self.slots@, i as int);
                }
                if self.slots[i].delivery.is_none() {
                    let slot = Slot { id, delivery: Some(Delivery::Outcome(outcome)) };
                    let mut slots: Vec<Slot> = Vec::new();
                    core::mem::swap(&mut slots, &mut self.slots);
                    proof {
                        lemma_update(slots@, i as int, slot);
                    }
                    slots.set(i, slot);
                    self.slots = slots;
                    true
                } else {
                    false
                }
            },
            None => false,
        }
    }

    /// Ends the table: every waiting slot receives `Closed`, once, and no
    /// id is allocated from now on. Slots that hold a delivery keep it.
    pub fn fail_all(&mut self)
        ensures
            final(self)@ == old(self)@.failed(),
    {
        proof {
            use_type_invariant(&*self);
        }
        let mut slots: Vec<Slot> = Vec::new();
        core::mem::swap(&mut slots, &mut self.slots);
        let ghost before = slots@;
        let mut i: usize = 0;
        while i < slots.len()
            invariant
                i <= slots.len(),
                slots.len() == before.len(),
                distinct(before),
                forall|j: int|
                    0 <= j < slots.len() ==> (#[trigger] slots@[j]).id == before[j].id
                        && slots@[j].state() == if j < i {
                        closed_slot(before[j].state())
                    } else {
                        before[j].state()
                    },
            decreases slots.len() - i,
        {
            if slots[i].delivery.is_none() {
                let id = slots[i].id;
                slots.set(i, Slot { id, delivery: Some(Delivery::Closed) });
            }
            i += 1;
        }
        proof {
            assert(distinct(slots@)) by {
                assert forall|a: int, b: int| 0 <= a < b < slots.len() implies slots@[a].id
                    != slots@[b].id by {
                    assert(before[a].id != before[b].id);
                }
            }
            assert forall|id: u32| has_id(slots@, id) == has_id(before, id) by {
                if has_id(slots@, id) {
                    let k = index_of(slots@, id);
                    assert(before[k].id == id);
                }
                if has_id(before, id) {
                    let k = index_of(before, id);
                    assert(slots@[k].id == id);
                }
            }
            assert forall|id: u32| #[trigger] has_id(slots@, id) implies slot_map(slots@)[id]
                == closed_slot(slot_map(before)[id]) by {
                let k = index_of(slots@, id);
                lemma_slot_at(slots@, k);
                lemma_slot_at(before, k);
            }
            assert(slot_map(slots@) =~= slot_map(before).map_values(
                |slot: Option<DeliveryView>| closed_slot(slot),
            ));
        }
        self.slots = slots;
        self.closed = true;
    }

    /// The caller's end of a slot: takes the delivery of `id` out of the
    /// table, which ends the slot. Gives `None`, and changes nothing,
    /// while the slot waits or if there is no such slot.
    pub fn take(&mut self, id: u32) -> (r: Option<Delivery>)
        ensures
            match r {
                Some(d) => {
                    &&& old(self)@.outstanding(id)
                    &&& old(self)@.slots[id] == Some(d@)
                    &&& final(self)@ == old(self)@.taken(id)
                },
                None => {
                    &&& !(old(self)@.outstanding(id) && old(self)@.slots[id] is Some)
                    &&& final(self)@ == old(self)@
                },
            },
    {
        proof {
            use_type_invariant(&*self);
        }
        match find(&self.slots, id) {
            Some(i) => {
                proof {
                    lemma_slot_at(self.slots@, i as int);
                }
                if self.slots[i].delivery.is_some() {
                    let mut slots: Vec<Slot> = Vec::new();
                    core::mem::swap(&mut slots, &mut self.slots);
                    proof {
                        lemma_remove(slots@, i as int);
                    }
                    let slot = slots.remove(i);
                    self.slots = slots;
                    slot.delivery
                } else {
                    None
                }
            },
            None => None,
        }
    }
}

} // verus!
