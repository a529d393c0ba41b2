//! Debouncing of continuous adjustments.
//!
//! Every edit is stamped with the next value of one generation counter and
//! replaces the edit that was pending for its key. A commit carries the stamp
//! it was scheduled with and goes through only while that stamp is still the
//! pending one, so of a burst of edits to one key only the last is sent.

use vstd::prelude::*;
use crate::color::HsvColor;

verus! {

/// The time an adjustment has to rest before it is sent, in milliseconds.
pub const SETTLE_DELAY_MS: u64 = 300;

/// Whether a resource is a light or a group.
#[derive(Clone, Copy, Debug, PartialEq, Eq, Hash, Structural)]
pub enum ResourceKind {
    Light,
    Group,
}

/// The attribute of a resource that an adjustment is about.
#[derive(Clone, Copy, Debug, PartialEq, Eq, Hash, Structural)]
pub enum AttributeClass {
    Brightness,
    Color,
}

/// The value that an adjustment asks for.
#[derive(Clone, Copy, Debug, PartialEq, Eq, Structural)]
pub enum EditValue {
    Brightness(u8),
    Color(HsvColor),
}

impl EditValue {
    /// The attribute that the value belongs to.
    pub open spec fn class(self) -> AttributeClass {
        match self {
            EditValue::Brightness(_) => AttributeClass::Brightness,
            EditValue::Color(_) => AttributeClass::Color,
        }
    }

    /// The attribute that the value belongs to.
    pub fn attribute(&self) -> (class: AttributeClass)
        ensures
            class == self.class(),
    {
        match self {
            EditValue::Brightness(_) => AttributeClass::Brightness,
            EditValue::Color(_) => AttributeClass::Color,
        }
    }
}

/// What pending edits are kept by: a resource and one of its attributes.
#[derive(Debug, PartialEq, Eq)]
pub struct EditKey {
    pub kind: ResourceKind,
    pub attribute: AttributeClass,
    pub id: String,
}

/// The mathematical value of an [`EditKey`].
pub struct EditKeyView {
    pub kind: ResourceKind,
    pub attribute: AttributeClass,
    pub id: Seq<char>,
}

impl View for EditKey {
    type V = EditKeyView;

    open spec fn view(&self) -> EditKeyView {
        EditKeyView { kind: self.kind, attribute: self.attribute, id: self.id@ }
    }
}

impl EditKey {
    /// Whether two keys name the same attribute of the same resource.
    pub fn same_as(&self, other: &EditKey) -> (same: bool)
        ensures
            same == (self@ == other@),
    {
        self.kind == other.kind && self.attribute == other.attribute && self.id == other.id
    }

    /// A copy of the key.
    pub fn copy(&self) -> (key: EditKey)
        ensures
            key@ == self@,
    {
        EditKey { kind: self.kind, attribute: self.attribute, id: self.id.clone() }
    }
}

/// An intended value and the generation it was stamped with.
pub struct Stamped {
    pub value: EditValue,
    pub counter: u64,
}

/// An edit that has not been sent yet.
#[derive(Debug, PartialEq, Eq)]
pub struct PendingEdit {
    pub key: EditKey,
    pub value: EditValue,
    pub counter: u64,
}

/// A commit that is to fire once the settle delay has passed.
#[derive(Debug, PartialEq, Eq)]
pub struct ScheduledCommit {
    pub key: EditKey,
    pub counter: u64,
    pub delay_ms: u64,
}

/// The pending edits and the generation counter.
#[derive(Debug, PartialEq, Eq)]
pub struct Debouncer {
    pub pending: Vec<PendingEdit>,
    pub counter: u64,
}

/// The mathematical value of a [`Debouncer`]: at most one pending edit per
/// key, and the last generation handed out.
pub struct DebouncerView {
    pub pending: Map<EditKeyView, Stamped>,
    pub counter: nat,
}

/// Whether the edit at position `i` is the one kept for `key`.
pub open spec fn holds_key(edits: Seq<PendingEdit>, key: EditKeyView, i: int) -> bool {
    0 <= i < edits.len() && edits[i].key@ == key
}

/// The pending edits by key.
pub open spec fn pending_map(edits: Seq<PendingEdit>) -> Map<EditKeyView, Stamped> {
    Map::new(
        |key: EditKeyView| exists|i: int| holds_key(edits, key, i),
        |key: EditKeyView|
            {
                let i = choose|i: int| holds_key(edits, key, i);
                Stamped { value: edits[i].value, counter: edits[i].counter }
            },
    )
}

/// No two of the edits have the same key.
pub open spec fn distinct_keys(edits: Seq<PendingEdit>) -> bool {
    forall|i: int, j: int|
        0 <= i < j < edits.len() ==> (#[trigger] edits[i]).key@ != (#[trigger] edits[j]).key@
}

/// With distinct keys, the edit at a position is the one the map holds for
/// its key.
pub proof fn lemma_pending_map_at(edits: Seq<PendingEdit>, i: int)
    requires
        distinct_keys(edits),
        0 <= i < edits.len(),
    ensures
        pending_map(edits).contains_key(edits[i].key@),
        pending_map(edits)[edits[i].key@] == (Stamped {
            value: edits[i].value,
            counter: edits[i].counter,
        }),
{
    let key = edits[i].key@;
    assert(holds_key(edits, key, i));
    let j = choose|j: int| holds_key(edits, key, j);
    assert(holds_key(edits, key, j));
    if i < j {
        assert(edits[i].key@ != edits[j].key@);
    }
    if j < i {
        assert(edits[j].key@ != edits[i].key@);
    }
}

impl View for Debouncer {
    type V = DebouncerView;

    open spec fn view(&self) -> DebouncerView {
        DebouncerView { pending: pending_map(self.pending@), counter: self.counter as nat }
    }
}

/// The state after an edit: the counter moves on by one, and the edit, with
/// the new counter as its stamp, takes the place of whatever was pending for
/// its key.
pub open spec fn after_submit(state: DebouncerView, key: EditKeyView, value: EditValue) -> DebouncerView {
    DebouncerView {
        pending: state.pending.insert(
            key,
            Stamped { value, counter: (state.counter + 1) as u64 },
        ),
        counter: state.counter + 1,
    }
}

/// Whether a commit with the given stamp is still the current one for its key.
pub open spec fn is_current(state: DebouncerView, key: EditKeyView, counter: u64) -> bool {
    state.pending.contains_key(key) && state.pending[key].counter == counter
}

/// The state after a commit has fired: a current commit takes its edit out,
/// a stale one changes nothing.
pub open spec fn after_fire(state: DebouncerView, key: EditKeyView, counter: u64) -> DebouncerView {
    if is_current(state, key, counter) {
        DebouncerView { pending: state.pending.remove(key), counter: state.counter }
    } else {
        state
    }
}

/// The value that a firing commit sends: that of its edit if the commit is
/// current, none if it is stale.
pub open spec fn fired_value(state: DebouncerView, key: EditKeyView, counter: u64) -> Option<EditValue> {
    if is_current(state, key, counter) {
        Some(state.pending[key].value)
    } else {
        None
    }
}

impl Debouncer {
    /// The invariant: one pending edit per key at most, each for the
    /// attribute of its key, and no stamp beyond the counter.
    pub open spec fn wf(&self) -> bool {
        &&& distinct_keys(self.pending@)
        &&& forall|i: int|
            0 <= i < self.pending.len() ==> (#[trigger] self.pending[i]).counter <= self.counter
        &&& forall|i: int|
            0 <= i < self.pending.len() ==> (#[trigger] self.pending[i]).value.class()
                == self.pending[i].key.attribute
    }

    /// A debouncer with nothing pending and the counter at zero.
    pub fn new() -> (d: Debouncer)
        ensures
            d.wf(),
            d@.pending == Map::<EditKeyView, Stamped>::empty(),
            d@.counter == 0,
    {
        let d = Debouncer { pending: Vec::new(), counter: 0 };
        assert(d@.pending =~= Map::<EditKeyView, Stamped>::empty());
        d
    }

    /// The position of the edit that is pending for `key`.
    fn position(&self, key: &EditKey) -> (found: Option<usize>)
        ensures
            match found {
                Some(p) => holds_key(self.pending@, key@, p as int),
                None => forall|i: int| !holds_key(self.pending@, key@, i),
            },
    {
        let mut i: usize = 0;
        while i < self.pending.len()
            invariant
                i <= self.pending.len(),
                forall|j: int| 0 <= j < i ==> !holds_key(self.pending@, key@, j),
            decreases self.pending.len() - i,
        {
            if self.pending[i].key.same_as(key) {
                return Some(i);
            }
            i = i + 1;
        }
        None
    }

    /// Records an edit: stamps it with the next generation, lets it take the
    /// place of the edit pending for the same attribute of the same
    /// resource, and hands back the commit to schedule.
    pub fn submit(&mut self, kind: ResourceKind, id: String, value: EditValue) -> (commit:
        ScheduledCommit)
        requires
            old(self).wf(),
            old(self).counter < u64::MAX,
        ensures
            final(self).wf(),
            commit.key@ == (EditKeyView { kind, attribute: value.class(), id: id@ }),
            commit.counter == old(self).counter + 1,
            commit.delay_ms == SETTLE_DELAY_MS,
            final(self)@ == after_submit(old(self)@, commit.key@, value),
    {
        let key = EditKey { kind, attribute: value.attribute(), id };
        let counter: u64 = self.counter + 1;
        let ghost before = self.pending@;
        let ghost stamped = Stamped { value, counter };
        self.counter = counter;
        match self.position(&key) {
            Some(p) => {
                self.pending[p].value = value;
                self.pending[p].counter = counter;
                proof {
                    let after = self.pending@;
                    assert forall|i: int| 0 <= i < after.len() implies (#[trigger] after[i]).key@
                        == before[i].key@ by {}
                    assert(distinct_keys(after)) by {
                        assert forall|i: int, j: int| 0 <= i < j < after.len() implies (
                        #[trigger] after[i]).key@ != (#[trigger] after[j]).key@ by {
                            assert(before[i].key@ != before[j].key@);
                        }
                    }
                    lemma_pending_map_at(after, p as int);
                    let target = pending_map(before).insert(key@, stamped);
                    assert forall|k: EditKeyView| #[trigger]
                        pending_map(after).dom().contains(k) == target.dom().contains(k) by {
                        if k == key@ {
                            assert(holds_key(after, k, p as int));
                        } else {
                            if pending_map(after).dom().contains(k) {
                                let i = choose|i: int| holds_key(after, k, i);
                                assert(holds_key(before, k, i));
                            }
                            if pending_map(before).dom().contains(k) {
                                let i = choose|i: int| holds_key(before, k, i);
                                assert(holds_key(after, k, i));
                            }
                        }
                    }
                    assert forall|k: EditKeyView| #[trigger]
                        pending_map(after).dom().contains(k) implies pending_map(after)[k]
                        == target[k] by {
                        if k != key@ {
                            let i = choose|i: int| holds_key(after, k, i);
                            assert(holds_key(before, k, i));
                            lemma_pending_map_at(after, i);
                            lemma_pending_map_at(before, i);
                        }
                    }
                    assert(pending_map(after) =~= target);
                }
            },
            None => {
                let edit = PendingEdit { key: key.copy(), value, counter };
                self.pending.push(edit);
                proof {
                    let after = self.pending@;
                    let last = after.len() - 1;
                    assert forall|i: int| 0 <= i < before.len() implies (#[trigger] after[i])
                        == before[i] by {}
                    assert(distinct_keys(after)) by {
                        assert forall|i: int, j: int| 0 <= i < j < after.len() implies (
                        #[trigger] after[i]).key@ != (#[trigger] after[j]).key@ by {
                            if j == last {
                                assert(!holds_key(before, key@, i));
                            } else {
                                assert(before[i].key@ != before[j].key@);
                            }
                        }
                    }
                    lemma_pending_map_at(after, last);
                    let target = pending_map(before).insert(key@, stamped);
                    assert forall|k: EditKeyView| #[trigger]
                        pending_map(after).dom().contains(k) == target.dom().contains(k) by {
                        if k == key@ {
                            assert(holds_key(after, k, last));
                        } else {
                            if pending_map(after).dom().contains(k) {
                                let i = choose|i: int| holds_key(after, k, i);
                                assert(holds_key(before, k, i));
                            }
                            if pending_map(before).dom().contains(k) {
                                let i = choose|i: int| holds_key(before, k, i);
                                assert(holds_key(after, k, i));
                            }
                        }
                    }
                    assert forall|k: EditKeyView| #[trigger]
                        pending_map(after).dom().contains(k) implies pending_map(after)[k]
                        == target[k] by {
                        if k != key@ {
                            let i = choose|i: int| holds_key(after, k, i);
                            assert(holds_key(before, k, i));
                            lemma_pending_map_at(after, i);
                            lemma_pending_map_at(before, i);
                        }
                    }
                    assert(pending_map(after) =~= target);
                }
            },
        }
        ScheduledCommit { key, counter, delay_ms: SETTLE_DELAY_MS }
    }

    /// Lets a commit fire. A commit whose stamp is still the pending one for
    /// its key takes the edit out and hands back the value to send; any other
    /// commit is stale and changes nothing.
    pub fn fire(&mut self, key: &EditKey, counter: u64) -> (value: Option<EditValue>)
        requires
            old(self).wf(),
        ensures
            final(self).wf(),
            value == fired_value(old(self)@, key@, counter),
            final(self)@ == after_fire(old(self)@, key@, counter),
    {
        let ghost before = self.pending@;
        match self.position(key) {
            Some(p) => {
                proof {
                    lemma_pending_map_at(before, p as int);
                }
                if self.pending[p].counter == counter {
                    let edit = self.pending.remove(p);
                    proof {
                        let after = self.pending@;
                        assert forall|i: int| 0 <= i < after.len() implies #[trigger] after[i] == (
                        if i < p {
                            before[i]
                        } else {
                            before[i + 1]
                        }) by {}
                        assert(distinct_keys(after)) by {
                            assert forall|i: int, j: int| 0 <= i < j < after.len() implies (
                            #[trigger] after[i]).key@ != (#[trigger] after[j]).key@ by {
                                let bi = if i < p { i } else { i + 1 };
                                let bj = if j < p { j } else { j + 1 };
                                assert(before[bi].key@ != before[bj].key@);
                            }
                        }
                        assert forall|i: int| !holds_key(after, key@, i) by {
                            if holds_key(after, key@, i) {
                                let bi = if i < p { i } else { i + 1 };
                                if bi < p {
                                    assert(before[bi].key@ != before[p as int].key@);
                                } else {
                                    assert(before[p as int].key@ != before[bi].key@);
                                }
                            }
                        }
                        let target = pending_map(before).remove(key@);
                        assert forall|k: EditKeyView| #[trigger]
                            pending_map(after).dom().contains(k) == target.dom().contains(k) by {
                            if k != key@ {
                                if pending_map(after).dom().contains(k) {
                                    let i = choose|i: int| holds_key(after, k, i);
                                    let bi = if i < p { i } else { i + 1 };
                                    assert(holds_key(before, k, bi));
                                }
                                if pending_map(before).dom().contains(k) {
                                    let i = choose|i: int| holds_key(before, k, i);
                                    let ai = if i < p { i } else { i - 1 };
                                    assert(holds_key(after, k, ai));
                                }
                            }
                        }
                        assert forall|k: EditKeyView| #[trigger]
                            pending_map(after).dom().contains(k) implies pending_map(after)[k]
                            == target[k] by {
                            let i = choose|i: int| holds_key(after, k, i);
                            let bi = if i < p { i } else { i + 1 };
                            assert(holds_key(before, k, bi));
                            lemma_pending_map_at(after, i);
                            lemma_pending_map_at(before, bi);
                        }
                        assert(pending_map(after) =~= target);
                    }
                    Some(edit.value)
                } else {
                    None
                }
            },
            None => None,
        }
    }

    /// Whether an edit is pending for `key`.
    pub fn is_pending(&self, key: &EditKey) -> (pending: bool)
        ensures
            pending == self@.pending.contains_key(key@),
    {
        self.position(key).is_some()
    }

    /// The number of pending edits.
    pub fn pending_count(&self) -> (count: usize)
        ensures
            count == self.pending@.len(),
    {
        self.pending.len()
    }
}

/// The state after a burst of edits to one key, submitted in order with no
/// commit firing in between.
pub open spec fn after_burst(state: DebouncerView, key: EditKeyView, values: Seq<EditValue>) -> DebouncerView
    decreases values.len(),
{
    if values.len() == 0 {
        state
    } else {
        after_submit(after_burst(state, key, values.drop_last()), key, values.last())
    }
}

/// The stamps that a burst of `n` edits hands out, from a counter at `start`.
pub open spec fn burst_stamps(start: nat, n: nat) -> Seq<u64> {
    Seq::new(n, |i: int| (start + 1 + i) as u64)
}

/// A state and the values sent on the way to it.
pub struct Outcome {
    pub state: DebouncerView,
    pub sent: Seq<EditValue>,
}

/// What comes of commits for one key firing one after the other with the
/// given stamps.
pub open spec fn fire_all(state: DebouncerView, key: EditKeyView, stamps: Seq<u64>) -> Outcome
    decreases stamps.len(),
{
    if stamps.len() == 0 {
        Outcome { state, sent: Seq::empty() }
    } else {
        let earlier = fire_all(state, key, stamps.drop_last());
        Outcome {
            state: after_fire(earlier.state, key, stamps.last()),
            sent: match fired_value(earlier.state, key, stamps.last()) {
                Some(value) => earlier.sent.push(value),
                None => earlier.sent,
            },
        }
    }
}

/// A commit that is not current sends nothing and leaves the state as it is.
pub proof fn lemma_stale_commit_changes_nothing(state: DebouncerView, key: EditKeyView, counter: u64)
    requires
        !is_current(state, key, counter),
    ensures
        fired_value(state, key, counter) is None,
        after_fire(state, key, counter) == state,
{
}

/// A later edit to the same key makes every commit scheduled before it
/// stale.
pub proof fn lemma_superseded_commit_is_stale(
    state: DebouncerView,
    key: EditKeyView,
    value: EditValue,
    counter: u64,
)
    requires
        state.counter < u64::MAX,
        counter <= state.counter,
    ensures
        !is_current(after_submit(state, key, value), key, counter),
        fired_value(after_submit(state, key, value), key, counter) is None,
        after_fire(after_submit(state, key, value), key, counter) == after_submit(
            state,
            key,
            value,
        ),
{
}

/// Once a commit has fired, no commit for the same key sends anything until
/// the next edit to that key.
pub proof fn lemma_commit_fires_once(
    state: DebouncerView,
    key: EditKeyView,
    counter: u64,
    again: u64,
)
    requires
        is_current(state, key, counter),
    ensures
        !after_fire(state, key, counter).pending.contains_key(key),
        fired_value(after_fire(state, key, counter), key, again) is None,
        after_fire(after_fire(state, key, counter), key, again) == after_fire(
            state,
            key,
            counter,
        ),
{
}

/// An edit or a commit for one key leaves the pending edits of the other
/// keys as they are.
pub proof fn lemma_other_keys_untouched(
    state: DebouncerView,
    key: EditKeyView,
    value: EditValue,
    counter: u64,
    other: EditKeyView,
)
    requires
        other != key,
    ensures
        after_submit(state, key, value).pending.contains_key(other)
            == state.pending.contains_key(other),
        after_fire(state, key, counter).pending.contains_key(other) == state.pending.contains_key(
            other,
        ),
        state.pending.contains_key(other) ==> after_submit(state, key, value).pending[other]
            == state.pending[other] && after_fire(state, key, counter).pending[other]
            == state.pending[other],
{
}

/// After a burst, the one pending edit for the key is the last of the burst,
/// stamped with the last generation handed out.
pub proof fn lemma_burst_keeps_last_edit(
    state: DebouncerView,
    key: EditKeyView,
    values: Seq<EditValue>,
)
    requires
        values.len() >= 1,
        state.counter + values.len() <= u64::MAX,
    ensures
        after_burst(state, key, values).counter == state.counter + values.len(),
        after_burst(state, key, values).pending == state.pending.insert(
            key,
            Stamped { value: values.last(), counter: (state.counter + values.len()) as u64 },
        ),
    decreases values.len(),
{
    let earlier = values.drop_last();
    if earlier.len() == 0 {
        assert(after_burst(state, key, earlier) == state);
    } else {
        lemma_burst_keeps_last_edit(state, key, earlier);
        let mid = after_burst(state, key, earlier);
        assert(after_submit(mid, key, values.last()).pending =~= state.pending.insert(
            key,
            Stamped { value: values.last(), counter: (state.counter + values.len()) as u64 },
        ));
    }
}

/// Where the commits of a burst fire in any order, and any number of times,
/// the commit of the last edit is the only one that sends, it sends the
/// value of the last edit, and it sends it once.
pub proof fn lemma_burst_sends_last_edit_once(
    state: DebouncerView,
    key: EditKeyView,
    values: Seq<EditValue>,
    stamps: Seq<u64>,
)
    requires
        values.len() >= 1,
        state.counter + values.len() <= u64::MAX,
        forall|i: int|
            0 <= i < stamps.len() ==> state.counter < #[trigger] stamps[i] <= state.counter
                + values.len(),
    ensures
        ({
            let settled = after_burst(state, key, values);
            let last = (state.counter + values.len()) as u64;
            let outcome = fire_all(settled, key, stamps);
            &&& outcome.sent == if stamps.contains(last) {
                seq![values.last()]
            } else {
                Seq::<EditValue>::empty()
            }
            &&& outcome.state == if stamps.contains(last) {
                after_fire(settled, key, last)
            } else {
                settled
            }
        }),
    decreases stamps.len(),
{
    let settled = after_burst(state, key, values);
    let last = (state.counter + values.len()) as u64;
    lemma_burst_keeps_last_edit(state, key, values);
    assert(is_current(settled, key, last));
    if stamps.len() > 0 {
        let front = stamps.drop_last();
        assert forall|i: int| 0 <= i < front.len() implies state.counter < #[trigger] front[i]
            <= state.counter + values.len() by {
            assert(front[i] == stamps[i]);
        }
        lemma_burst_sends_last_edit_once(state, key, values, front);
        let stamp = stamps.last();
        assert(stamp == stamps[stamps.len() - 1]);
        if front.contains(last) {
            let i = choose|i: int| 0 <= i < front.len() && front[i] == last;
            assert(stamps[i] == last);
            assert(!after_fire(settled, key, last).pending.contains_key(key));
        } else if stamp == last {
            assert(fire_all(settled, key, stamps).sent =~= seq![values.last()]);
        } else {
            if stamps.contains(last) {
                let i = choose|i: int| 0 <= i < stamps.len() && stamps[i] == last;
                assert(front[i] == last);
            }
        }
    } else {
        assert(!stamps.contains(last));
    }
}

/// Where each commit of a burst fires once, in the order of the edits, one
/// value is sent in all: that of the last edit.
pub proof fn lemma_burst_in_order_sends_last_edit(
    state: DebouncerView,
    key: EditKeyView,
    values: Seq<EditValue>,
)
    requires
        values.len() >= 1,
        state.counter + values.len() <= u64::MAX,
    ensures
        fire_all(
            after_burst(state, key, values),
            key,
            burst_stamps(state.counter, values.len()),
        ).sent == seq![values.last()],
        !fire_all(
            after_burst(state, key, values),
            key,
            burst_stamps(state.counter, values.len()),
        ).state.pending.contains_key(key),
{
    let stamps = burst_stamps(state.counter, values.len());
    let last = (state.counter + values.len()) as u64;
    assert(stamps[values.len() - 1] == last);
    lemma_burst_sends_last_edit_once(state, key, values, stamps);
    lemma_burst_keeps_last_edit(state, key, values);
}

} // verus!
