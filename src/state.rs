use vstd::prelude::*;

use crate::matcher::{
    accepts, lemma_same_criteria_equiv, same_criteria, MatcherModel, SpanMatcher, SpanModel,
    SpanRecord,
};

verus! {

/// One of the four moments in the life of a span.
#[derive(Clone, Copy, PartialEq, Eq, Structural, Debug)]
pub enum Transition {
    Created,
    Entered,
    Exited,
    Closed,
}

/// A counter after one more event. It stops at the largest `usize`, which no
/// run of a test comes near.
pub open spec fn bumped(n: nat) -> nat {
    if n < usize::MAX {
        n + 1
    } else {
        n
    }
}

/// The four counts of one entry.
pub ghost struct Tally {
    pub created: nat,
    pub entered: nat,
    pub exited: nat,
    pub closed: nat,
}

impl Tally {
    pub open spec fn zero() -> Tally {
        Tally { created: 0, entered: 0, exited: 0, closed: 0 }
    }

    /// The count kept for the transition `t`.
    pub open spec fn count(self, t: Transition) -> nat {
        match t {
            Transition::Created => self.created,
            Transition::Entered => self.entered,
            Transition::Exited => self.exited,
            Transition::Closed => self.closed,
        }
    }

    /// The tally after one more event of kind `t`.
    pub open spec fn bump(self, t: Transition) -> Tally {
        match t {
            Transition::Created => Tally { created: bumped(self.created), ..self },
            Transition::Entered => Tally { entered: bumped(self.entered), ..self },
            Transition::Exited => Tally { exited: bumped(self.exited), ..self },
            Transition::Closed => Tally { closed: bumped(self.closed), ..self },
        }
    }

    /// No count is below the matching count of `earlier`.
    pub open spec fn no_less_than(self, earlier: Tally) -> bool {
        &&& self.created >= earlier.created
        &&& self.entered >= earlier.entered
        &&& self.exited >= earlier.exited
        &&& self.closed >= earlier.closed
    }
}

/// The counters of one matcher: how many matching spans were created,
/// entered, exited and closed. No operation lowers a count.
#[derive(Clone, Copy, PartialEq, Eq, Structural, Debug)]
pub struct EntryState {
    created: usize,
    entered: usize,
    exited: usize,
    closed: usize,
}

impl View for EntryState {
    type V = Tally;

    closed spec fn view(&self) -> Tally {
        Tally {
            created: self.created as nat,
            entered: self.entered as nat,
            exited: self.exited as nat,
            closed: self.closed as nat,
        }
    }
}

fn bump_count(n: usize) -> (r: usize)
    ensures
        r == bumped(n as nat),
{
    if n < usize::MAX {
        n + 1
    } else {
        n
    }
}

impl EntryState {
    /// Counters that have seen nothing.
    pub fn new() -> (r: EntryState)
        ensures
            r@ == Tally::zero(),
    {
        EntryState { created: 0, entered: 0, exited: 0, closed: 0 }
    }

    /// Counts one event of kind `t`.
    pub fn track(&mut self, t: Transition)
        ensures
            final(self)@ == old(self)@.bump(t),
    {
        match t {
            Transition::Created => self.created = bump_count(self.created),
            Transition::Entered => self.entered = bump_count(self.entered),
            Transition::Exited => self.exited = bump_count(self.exited),
            Transition::Closed => self.closed = bump_count(self.closed),
        }
    }

    pub fn track_created(&mut self)
        ensures
            final(self)@ == old(self)@.bump(Transition::Created),
    {
        self.track(Transition::Created);
    }

    pub fn track_entered(&mut self)
        ensures
            final(self)@ == old(self)@.bump(Transition::Entered),
    {
        self.track(Transition::Entered);
    }

    pub fn track_exited(&mut self)
        ensures
            final(self)@ == old(self)@.bump(Transition::Exited),
    {
        self.track(Transition::Exited);
    }

    pub fn track_closed(&mut self)
        ensures
            final(self)@ == old(self)@.bump(Transition::Closed),
    {
        self.track(Transition::Closed);
    }

    /// The count kept for the transition `t`.
    pub fn count(&self, t: Transition) -> (r: usize)
        ensures
            r == self@.count(t),
    {
        match t {
            Transition::Created => self.created,
            Transition::Entered => self.entered,
            Transition::Exited => self.exited,
            Transition::Closed => self.closed,
        }
    }

    pub fn num_created(&self) -> (r: usize)
        ensures
            r == self@.created,
    {
        self.created
    }

    pub fn num_entered(&self) -> (r: usize)
        ensures
            r == self@.entered,
    {
        self.entered
    }

    pub fn num_exited(&self) -> (r: usize)
        ensures
            r == self@.exited,
    {
        self.exited
    }

    pub fn num_closed(&self) -> (r: usize)
        ensures
            r == self@.closed,
    {
        self.closed
    }
}

/// A registered matcher and the slot that holds its counters.
struct Entry {
    matcher: SpanMatcher,
    slot: usize,
}

/// The registry: the live mapping from matchers to counter slots, and the
/// slots themselves.
///
/// Slots are never taken away. Removing a matcher only ends its mapping, so
/// a handle that still knows the slot keeps reading the counts it had, and a
/// later registration of an equal matcher starts a fresh slot at zero.
pub struct State {
    live: Vec<Entry>,
    slots: Vec<EntryState>,
}

impl State {
    /// The live mapping: each matcher with the index of its slot.
    pub closed spec fn live(&self) -> Seq<(MatcherModel, nat)> {
        self.live@.map_values(|e: Entry| (e.matcher@, e.slot as nat))
    }

    /// The counts held in each slot.
    pub closed spec fn tallies(&self) -> Seq<Tally> {
        self.slots@.map_values(|c: EntryState| c@)
    }

    /// Every live matcher points at a slot that exists, no two live matchers
    /// share a slot, and no two live matchers ask the same of every span.
    pub open spec fn wf(&self) -> bool {
        &&& forall|i: int| 0 <= i < self.live().len() ==> #[trigger] self.live()[i].1 < self.tallies().len()
        &&& forall|i: int, j: int|
            0 <= i < self.live().len() && 0 <= j < self.live().len() && i != j
                ==> #[trigger] self.live()[i].1 != #[trigger] self.live()[j].1
        &&& forall|i: int, j: int|
            0 <= i < self.live().len() && 0 <= j < self.live().len() && i != j
                ==> !same_criteria(#[trigger] self.live()[i].0, #[trigger] self.live()[j].0)
    }

    /// Some live matcher asks the same as `m`.
    pub open spec fn has_entry(&self, m: MatcherModel) -> bool {
        exists|i: int| 0 <= i < self.live().len() && same_criteria(#[trigger] self.live()[i].0, m)
    }

    /// The position of the live matcher that asks the same as `m`.
    pub open spec fn entry_index(&self, m: MatcherModel) -> int {
        choose|i: int| 0 <= i < self.live().len() && same_criteria(#[trigger] self.live()[i].0, m)
    }

    /// The slot of the live matcher that asks the same as `m`, if any.
    pub open spec fn slot_of(&self, m: MatcherModel) -> Option<nat> {
        if self.has_entry(m) {
            Some(self.live()[self.entry_index(m)].1)
        } else {
            None
        }
    }

    /// The counts in `slot`; zero counts for a slot this registry does not
    /// hold.
    pub open spec fn tally_of(&self, slot: nat) -> Tally {
        if slot < self.tallies().len() {
            self.tallies()[slot as int]
        } else {
            Tally::zero()
        }
    }

    /// Some live matcher that accepts `s` has its counters in slot `j`.
    pub open spec fn claims(&self, j: int, s: SpanModel) -> bool {
        exists|i: int|
            0 <= i < self.live().len() && #[trigger] self.live()[i].1 == j && accepts(
                self.live()[i].0,
                s,
            )
    }

    /// What registering `m` does: an equal live matcher gives its slot and
    /// nothing changes; otherwise a fresh zeroed slot is added and mapped.
    pub open spec fn registered(pre: State, m: MatcherModel, r: nat, post: State) -> bool {
        &&& post.wf()
        &&& match pre.slot_of(m) {
            Some(s) => {
                &&& r == s
                &&& post.live() == pre.live()
                &&& post.tallies() == pre.tallies()
            },
            None => {
                &&& r == pre.tallies().len()
                &&& post.live() == pre.live().push((m, r))
                &&& post.tallies() == pre.tallies().push(Tally::zero())
            },
        }
    }

    /// What one event of kind `t` on span `s` does: every slot claimed by a
    /// live matcher that accepts `s` counts it once; nothing else changes.
    pub open spec fn dispatched(pre: State, s: SpanModel, t: Transition, post: State) -> bool {
        &&& post.wf()
        &&& post.live() == pre.live()
        &&& post.tallies().len() == pre.tallies().len()
        &&& forall|j: int|
            0 <= j < pre.tallies().len() ==> #[trigger] post.tallies()[j] == if pre.claims(j, s) {
                pre.tallies()[j].bump(t)
            } else {
                pre.tallies()[j]
            }
    }

    /// What removing `m` does: the live matcher that asks the same as `m`,
    /// if any, leaves the mapping; every slot keeps its counts.
    pub open spec fn removed(pre: State, m: MatcherModel, post: State) -> bool {
        &&& post.wf()
        &&& post.tallies() == pre.tallies()
        &&& post.live() == if pre.has_entry(m) {
            pre.live().remove(pre.entry_index(m))
        } else {
            pre.live()
        }
    }

    /// An empty registry.
    pub fn new() -> (r: State)
        ensures
            r.wf(),
            r.live() == Seq::<(MatcherModel, nat)>::empty(),
            r.tallies() == Seq::<Tally>::empty(),
    {
        let r = State { live: Vec::new(), slots: Vec::new() };
        assert(r.live() =~= Seq::<(MatcherModel, nat)>::empty());
        assert(r.tallies() =~= Seq::<Tally>::empty());
        r
    }

    /// In a well-formed registry the live matcher that asks the same as `m`
    /// is unique.
    pub proof fn lemma_unique(&self, m: MatcherModel, i: int)
        requires
            self.wf(),
            0 <= i < self.live().len(),
            same_criteria(self.live()[i].0, m),
        ensures
            self.has_entry(m),
            self.entry_index(m) == i,
    {
        let k = self.entry_index(m);
        if k != i {
            lemma_same_criteria_equiv(self.live()[i].0, m, self.live()[k].0);
            lemma_same_criteria_equiv(self.live()[k].0, m, self.live()[i].0);
        }
    }

    /// The position in the live mapping of the matcher that asks the same as
    /// `m`, if any.
    fn find(&self, m: &SpanMatcher) -> (r: Option<usize>)
        requires
            self.wf(),
        ensures
            match r {
                Some(i) => self.has_entry(m@) && self.entry_index(m@) == i,
                None => !self.has_entry(m@),
            },
    {
        let mut i: usize = 0;
        while i < self.live.len()
            invariant
                self.wf(),
                i <= self.live@.len(),
                forall|j: int| 0 <= j < i ==> !same_criteria(#[trigger] self.live()[j].0, m@),
            decreases self.live@.len() - i,
        {
            if self.live[i].matcher.same_criteria_as(m) {
                proof {
                    self.lemma_unique(m@, i as int);
                }
                return Some(i);
            }
            i += 1;
        }
        None
    }

    /// The slot of the live matcher that asks the same as `m`, if any.
    pub fn lookup(&self, m: &SpanMatcher) -> (r: Option<usize>)
        requires
            self.wf(),
        ensures
            match r {
                Some(s) => self.slot_of(m@) == Some(s as nat),
                None => self.slot_of(m@) is None,
            },
    {
        match self.find(m) {
            Some(i) => Some(self.live[i].slot),
            None => None,
        }
    }

    /// Registers `matcher` and returns the slot of its counters: the slot of
    /// an equal live matcher if there is one, else a fresh zeroed slot.
    pub fn create_entry(&mut self, matcher: SpanMatcher) -> (r: usize)
        requires
            old(self).wf(),
        ensures
            State::registered(*old(self), matcher@, r as nat, *final(self)),
    {
        match self.find(&matcher) {
            Some(i) => self.live[i].slot,
            None => {
                let ghost m = matcher@;
                let ghost pre = *self;
                self.slots.push(EntryState::new());
                let slot = self.slots.len() - 1;
                self.live.push(Entry { matcher, slot });
                assert(self.tallies() =~= pre.tallies().push(Tally::zero()));
                assert(self.live() =~= pre.live().push((m, slot as nat)));
                assert forall|i: int, j: int|
                    0 <= i < self.live().len() && 0 <= j < self.live().len() && i != j
                        implies !same_criteria(
                    #[trigger] self.live()[i].0,
                    #[trigger] self.live()[j].0,
                ) by {
                    if j == self.live().len() - 1 {
                        lemma_same_criteria_equiv(self.live()[i].0, m, m);
                    } else if i == self.live().len() - 1 {
                        lemma_same_criteria_equiv(m, self.live()[j].0, m);
                    }
                }
                slot
            },
        }
    }

    /// Counts one event of kind `t` on `span` in the slot of every live
    /// matcher that accepts it, once per slot.
    pub fn dispatch(&mut self, span: &SpanRecord, t: Transition)
        requires
            old(self).wf(),
        ensures
            State::dispatched(*old(self), span@, t, *final(self)),
    {
        let ghost pre = *self;
        let mut i: usize = 0;
        while i < self.live.len()
            invariant
                pre.wf(),
                self.live() == pre.live(),
                self.live@.len() == pre.live@.len(),
                self.tallies().len() == pre.tallies().len(),
                i <= self.live@.len(),
                forall|j: int|
                    0 <= j < pre.tallies().len() ==> #[trigger] self.tallies()[j] == if exists|
                        k: int,
                    |
                        0 <= k < i && #[trigger] pre.live()[k].1 == j && accepts(
                            pre.live()[k].0,
                            span@,
                        ) {
                        pre.tallies()[j].bump(t)
                    } else {
                        pre.tallies()[j]
                    },
            decreases self.live@.len() - i,
        {
            assert(self.live()[i as int] == (self.live@[i as int].matcher@, self.live@[i as int].slot as nat));
            let ghost before = *self;
            let ghost ii = i as int;
            assert(pre.live()[ii].1 < pre.tallies().len());
            let matched = self.live[i].matcher.matches(span);
            let k = self.live[i].slot;
            if matched {
                let mut c = self.slots[k];
                assert(c@ == before.tallies()[k as int]);
                c.track(t);
                self.slots.set(k, c);
                assert(self.tallies() =~= before.tallies().update(k as int, c@));
            }
            assert forall|j: int| 0 <= j < pre.tallies().len() implies #[trigger] self.tallies()[j]
                == if exists|q: int| 0 <= q < i + 1 && #[trigger] pre.live()[q].1 == j && accepts(
                pre.live()[q].0,
                span@,
            ) {
                pre.tallies()[j].bump(t)
            } else {
                pre.tallies()[j]
            } by {
                if matched && j == k {
                    assert(pre.live()[ii].1 == j);
                    assert(forall|q: int| 0 <= q < i ==> #[trigger] pre.live()[q].1 != pre.live()[ii].1);
                } else if exists|q: int| 0 <= q < i + 1 && #[trigger] pre.live()[q].1 == j && accepts(
                    pre.live()[q].0,
                    span@,
                ) {
                    let q = choose|q: int| 0 <= q < i + 1 && #[trigger] pre.live()[q].1 == j && accepts(
                        pre.live()[q].0,
                        span@,
                    );
                    assert(q != ii);
                }
            }
            i += 1;
        }
        assert(self.wf());
        assert forall|j: int| 0 <= j < pre.tallies().len() implies #[trigger] self.tallies()[j]
            == if pre.claims(j, span@) {
            pre.tallies()[j].bump(t)
        } else {
            pre.tallies()[j]
        } by {}
    }

    /// Ends the mapping of the live matcher that asks the same as `matcher`,
    /// if there is one. Slots keep their counts.
    pub fn remove_entry(&mut self, matcher: &SpanMatcher)
        requires
            old(self).wf(),
        ensures
            State::removed(*old(self), matcher@, *final(self)),
    {
        let ghost pre = *self;
        if let Some(i) = self.find(matcher) {
            self.live.remove(i);
            assert(self.live() =~= pre.live().remove(i as int));
        }
    }

    /// A copy of the counters in `slot`; zero counts for a slot this
    /// registry does not hold.
    pub fn tally_at(&self, slot: usize) -> (r: EntryState)
        ensures
            r@ == self.tally_of(slot as nat),
            slot < self.tallies().len() ==> r@ == self.tallies()[slot as int],
            slot >= self.tallies().len() ==> r@ == Tally::zero(),
    {
        if slot < self.slots.len() {
            self.slots[slot]
        } else {
            EntryState::new()
        }
    }
}

} // verus!
