//! Suspensions that are scheduled for render quanta to come.

use vstd::prelude::*;

verus! {

/// The render quanta of a list of suspensions rise from one to the next.
pub open spec fn rising<C>(entries: Seq<(usize, C)>) -> bool {
    forall|i: int, j: int| 0 <= i < j < entries.len() ==> entries[i].0 < entries[j].0
}

/// Whether a suspension is scheduled at a render quantum.
pub open spec fn scheduled_at<C>(entries: Seq<(usize, C)>, quantum: usize) -> bool {
    exists|i: int| 0 <= i < entries.len() && (#[trigger] entries[i]).0 == quantum
}

/// Whether `pos` is the place of a render quantum among rising ones: only earlier quanta stand
/// before it, and only later ones from there on.
pub open spec fn is_place<C>(entries: Seq<(usize, C)>, quantum: usize, pos: int) -> bool {
    &&& 0 <= pos <= entries.len()
    &&& forall|i: int| 0 <= i < pos ==> (#[trigger] entries[i]).0 < quantum
    &&& forall|i: int| pos <= i < entries.len() ==> (#[trigger] entries[i]).0 > quantum
}

/// What is due at a render quantum: what stands first in the list, if it is scheduled there.
pub open spec fn due<C>(entries: Seq<(usize, C)>, quantum: usize) -> Option<C> {
    if entries.len() > 0 && entries[0].0 == quantum {
        Some(entries[0].1)
    } else {
        None
    }
}

/// What remains of a list after a render quantum.
pub open spec fn after_due<C>(entries: Seq<(usize, C)>, quantum: usize) -> Seq<(usize, C)> {
    if due(entries, quantum) is Some {
        entries.skip(1)
    } else {
        entries
    }
}

/// Sorted list of what to do at certain render quanta, at most one thing at each.
pub struct SuspendSchedule<C> {
    entries: Vec<(usize, C)>,
}

impl<C> View for SuspendSchedule<C> {
    type V = Seq<(usize, C)>;

    closed spec fn view(&self) -> Seq<(usize, C)> {
        self.entries@
    }
}

impl<C> SuspendSchedule<C> {
    /// The render quanta rise from one entry to the next.
    pub open spec fn wf(self) -> bool {
        rising(self@)
    }

    /// Creates an empty list.
    pub fn new() -> (r: Self)
        ensures
            r.wf(),
            r@ == Seq::<(usize, C)>::empty(),
    {
        SuspendSchedule { entries: Vec::new() }
    }

    /// Finds a render quantum in the list: where it stands, or else where it would have to be
    /// inserted.
    pub fn search(&self, quantum: usize) -> (r: Result<usize, usize>)
        requires
            self.wf(),
        ensures
            match r {
                Ok(pos) => pos < self@.len() && self@[pos as int].0 == quantum,
                Err(pos) => is_place(self@, quantum, pos as int) && !scheduled_at(self@, quantum),
            },
    {
        let mut low: usize = 0;
        let mut high: usize = self.entries.len();
        while low < high
            invariant
                self.wf(),
                low <= high <= self@.len(),
                forall|i: int| 0 <= i < low ==> (#[trigger] self@[i]).0 < quantum,
                forall|i: int| high <= i < self@.len() ==> (#[trigger] self@[i]).0 > quantum,
            decreases high - low,
        {
            let middle: usize = low + (high - low) / 2;
            let found: usize = self.entries[middle].0;
            assert(self@[middle as int].0 == found);
            if found == quantum {
                return Ok(middle);
            }
            if found < quantum {
                low = middle + 1;
            } else {
                high = middle;
            }
        }
        Err(low)
    }

    /// Tells whether something is scheduled at a render quantum.
    pub fn contains(&self, quantum: usize) -> (r: bool)
        requires
            self.wf(),
        ensures
            r == scheduled_at(self@, quantum),
    {
        match self.search(quantum) {
            Ok(pos) => {
                assert(self@[pos as int].0 == quantum);
                true
            },
            Err(_) => false,
        }
    }

    /// Schedules `action` at a render quantum, where nothing is scheduled yet.
    pub fn insert(&mut self, quantum: usize, action: C)
        requires
            old(self).wf(),
            !scheduled_at(old(self)@, quantum),
        ensures
            final(self).wf(),
            exists|pos: int|
                #[trigger] is_place(old(self)@, quantum, pos) && final(self)@ == old(self)@.insert(
                    pos,
                    (quantum, action),
                ),
    {
        match self.search(quantum) {
            Ok(pos) => {
                assert(self@[pos as int].0 == quantum);
            },
            Err(pos) => {
                self.entries.insert(pos, (quantum, action));
                assert(is_place(old(self)@, quantum, pos as int));
            },
        }
    }

    /// Number of entries.
    pub fn len(&self) -> (r: usize)
        ensures
            r == self@.len(),
    {
        self.entries.len()
    }

    /// Takes out what is scheduled at a render quantum, if it stands first in the list.
    pub fn take_due(&mut self, quantum: usize) -> (r: Option<C>)
        requires
            old(self).wf(),
        ensures
            final(self).wf(),
            r == due(old(self)@, quantum),
            final(self)@ == after_due(old(self)@, quantum),
    {
        if self.entries.len() > 0 && self.entries[0].0 == quantum {
            let entry = self.entries.remove(0);
            assert(self@ =~= old(self)@.skip(1));
            Some(entry.1)
        } else {
            None
        }
    }
}

/// The place of a render quantum is unique, so that a list of suspensions depends only on what was
/// scheduled, not on the order in which that was done.
pub proof fn law_place_is_unique<C>(entries: Seq<(usize, C)>, quantum: usize, a: int, b: int)
    requires
        is_place(entries, quantum, a),
        is_place(entries, quantum, b),
    ensures
        a == b,
{
    if a < b {
        assert(entries[a].0 < quantum);
    } else if b < a {
        assert(entries[b].0 < quantum);
    }
}

/// What remains of a list once what was due at each of the first `n` render quanta was taken out.
pub open spec fn left_after<C>(entries: Seq<(usize, C)>, n: nat) -> Seq<(usize, C)>
    decreases n,
{
    if n == 0 {
        entries
    } else {
        after_due(left_after(entries, (n - 1) as nat), (n - 1) as usize)
    }
}

/// What was taken out at the first `n` render quanta, in order: each action with the quantum at
/// which it was due.
pub open spec fn handed_out<C>(entries: Seq<(usize, C)>, n: nat) -> Seq<(usize, C)>
    decreases n,
{
    if n == 0 {
        Seq::empty()
    } else {
        let earlier = handed_out(entries, (n - 1) as nat);
        match due(left_after(entries, (n - 1) as nat), (n - 1) as usize) {
            Some(action) => earlier.push(((n - 1) as usize, action)),
            None => earlier,
        }
    }
}

/// Walking the render quanta in order takes out the list from front to back, nothing twice and
/// nothing out of turn: each action at its own quantum, and all of them once every quantum that
/// occurs in the list is behind.
pub proof fn law_walk_hands_out_each_action_once<C>(entries: Seq<(usize, C)>, n: nat)
    requires
        rising(entries),
        n <= usize::MAX,
    ensures
        handed_out(entries, n) + left_after(entries, n) == entries,
        forall|i: int|
            0 <= i < handed_out(entries, n).len() ==> (#[trigger] handed_out(entries, n)[i]).0 < n,
        forall|i: int|
            0 <= i < left_after(entries, n).len() ==> (#[trigger] left_after(entries, n)[i]).0 >= n,
        (forall|i: int| 0 <= i < entries.len() ==> (#[trigger] entries[i]).0 < n) ==> handed_out(
            entries,
            n,
        ) == entries && left_after(entries, n).len() == 0,
    decreases n,
{
    if n == 0 {
        assert(handed_out(entries, n) + left_after(entries, n) =~= entries);
    } else {
        let m = (n - 1) as nat;
        law_walk_hands_out_each_action_once(entries, m);
        let out = handed_out(entries, m);
        let left = left_after(entries, m);
        assert forall|i: int, j: int| 0 <= i < j < left.len() implies left[i].0 < left[j].0 by {
            assert(left[i] == entries[out.len() + i]);
            assert(left[j] == entries[out.len() + j]);
        }
        assert(handed_out(entries, n) + left_after(entries, n) =~= entries);
        assert forall|i: int| 0 <= i < left_after(entries, n).len() implies (#[trigger] left_after(
            entries,
            n,
        )[i]).0 >= n by {
            if due(left, m as usize) is Some {
                assert(left_after(entries, n)[i] == left[i + 1]);
                assert(left[0].0 < left[i + 1].0);
            } else {
                assert(left[0].0 >= m);
                if i > 0 {
                    assert(left[0].0 < left[i].0);
                }
            }
        }
    }
    if forall|i: int| 0 <= i < entries.len() ==> (#[trigger] entries[i]).0 < n {
        let out = handed_out(entries, n);
        let left = left_after(entries, n);
        if left.len() > 0 {
            assert(left[0].0 >= n);
            assert(left[0] == entries[out.len() as int]);
        }
        assert(handed_out(entries, n) =~= entries);
    }
}

/// Whether no two entries of a list have the same render quantum.
pub open spec fn distinct_quanta<C>(list: Seq<(usize, C)>) -> bool {
    forall|i: int, j: int| 0 <= i < list.len() && 0 <= j < list.len() && i != j ==> list[i].0 != list[j].0
}

/// The list that comes of scheduling entries one after the other, each at its place.
pub open spec fn scheduled<C>(list: Seq<(usize, C)>) -> Seq<(usize, C)>
    decreases list.len(),
{
    if list.len() == 0 {
        Seq::empty()
    } else {
        let earlier = scheduled(list.drop_last());
        let pos = choose|pos: int| #[trigger] is_place(earlier, list.last().0, pos);
        earlier.insert(pos, list.last())
    }
}

/// A render quantum at which nothing is scheduled has a place.
proof fn lemma_has_place<C>(entries: Seq<(usize, C)>, quantum: usize) -> (pos: int)
    requires
        rising(entries),
        !scheduled_at(entries, quantum),
    ensures
        is_place(entries, quantum, pos),
    decreases entries.len(),
{
    if entries.len() == 0 {
        0
    } else {
        let last = entries.last();
        assert(entries[entries.len() - 1].0 != quantum);
        if last.0 < quantum {
            assert forall|i: int| 0 <= i < entries.len() implies (#[trigger] entries[i]).0 < quantum by {
                if i < entries.len() - 1 {
                    assert(entries[i].0 < entries[entries.len() - 1].0);
                }
            }
            entries.len() as int
        } else {
            let earlier = entries.drop_last();
            assert(rising(earlier));
            assert(!scheduled_at(earlier, quantum)) by {
                if scheduled_at(earlier, quantum) {
                    let i = choose|i: int|
                        0 <= i < earlier.len() && (#[trigger] earlier[i]).0 == quantum;
                    assert(entries[i].0 == quantum);
                }
            }
            let pos = lemma_has_place(earlier, quantum);
            assert forall|i: int| 0 <= i < pos implies (#[trigger] entries[i]).0 < quantum by {
                assert(earlier[i] == entries[i]);
            }
            assert forall|i: int| pos <= i < entries.len() implies (#[trigger] entries[i]).0
                > quantum by {
                if i < earlier.len() {
                    assert(earlier[i] == entries[i]);
                }
            }
            pos
        }
    }
}

/// Inserting at the place of a render quantum keeps a list rising, and adds that entry only.
proof fn lemma_insert_at_place<C>(entries: Seq<(usize, C)>, entry: (usize, C), pos: int)
    requires
        rising(entries),
        is_place(entries, entry.0, pos),
    ensures
        rising(entries.insert(pos, entry)),
        forall|x: (usize, C)| #[trigger]
            entries.insert(pos, entry).contains(x) <==> entries.contains(x) || x == entry,
{
    let more = entries.insert(pos, entry);
    assert forall|i: int, j: int| 0 <= i < j < more.len() implies more[i].0 < more[j].0 by {
        if i < pos {
            assert(more[i] == entries[i]);
        } else if i > pos {
            assert(more[i] == entries[i - 1]);
        }
        if j < pos {
            assert(more[j] == entries[j]);
        } else if j > pos {
            assert(more[j] == entries[j - 1]);
        }
    }
    assert forall|x: (usize, C)| #[trigger] more.contains(x) <==> entries.contains(x) || x == entry by {
        if more.contains(x) && x != entry {
            let i = choose|i: int| 0 <= i < more.len() && more[i] == x;
            if i < pos {
                assert(entries[i] == x);
            } else {
                assert(entries[i - 1] == x);
            }
        }
        if entries.contains(x) {
            let i = choose|i: int| 0 <= i < entries.len() && entries[i] == x;
            if i < pos {
                assert(more[i] == x);
            } else {
                assert(more[i + 1] == x);
            }
        }
        assert(more[pos] == entry);
    }
}

/// What was scheduled is in the list, in rising order, and nothing else is.
pub proof fn law_schedule_holds_what_was_scheduled<C>(list: Seq<(usize, C)>)
    requires
        distinct_quanta(list),
    ensures
        rising(scheduled(list)),
        scheduled(list).len() == list.len(),
        forall|x: (usize, C)| #[trigger] scheduled(list).contains(x) <==> list.contains(x),
    decreases list.len(),
{
    if list.len() > 0 {
        let init = list.drop_last();
        let last = list.last();
        law_schedule_holds_what_was_scheduled(init);
        let earlier = scheduled(init);
        assert(!scheduled_at(earlier, last.0)) by {
            if scheduled_at(earlier, last.0) {
                let i = choose|i: int| 0 <= i < earlier.len() && (#[trigger] earlier[i]).0 == last.0;
                assert(earlier.contains(earlier[i]));
                assert(init.contains(earlier[i]));
                let j = choose|j: int| 0 <= j < init.len() && init[j] == earlier[i];
                assert(list[j].0 == list[list.len() - 1].0);
            }
        }
        let some = lemma_has_place(earlier, last.0);
        let pos = choose|pos: int| #[trigger] is_place(earlier, last.0, pos);
        lemma_insert_at_place(earlier, last, pos);
        assert forall|x: (usize, C)| #[trigger] scheduled(list).contains(x) <==> list.contains(x) by {
            assert(scheduled(list).contains(x) <==> earlier.contains(x) || x == last);
            if init.contains(x) {
                let j = choose|j: int| 0 <= j < init.len() && init[j] == x;
                assert(list[j] == x);
            }
            if list.contains(x) && x != last {
                let j = choose|j: int| 0 <= j < list.len() && list[j] == x;
                assert(init[j] == x);
            }
            assert(list[list.len() - 1] == last);
        }
    }
}

/// Scheduling one more entry, at any place of its render quantum, is what [`scheduled`] says.
pub proof fn law_schedule_follows_each_insertion<C>(list: Seq<(usize, C)>, entry: (usize, C), pos: int)
    requires
        distinct_quanta(list.push(entry)),
        is_place(scheduled(list), entry.0, pos),
    ensures
        scheduled(list.push(entry)) == scheduled(list).insert(pos, entry),
{
    assert(list.push(entry).drop_last() =~= list);
    let other = choose|other: int| #[trigger] is_place(scheduled(list), entry.0, other);
    law_place_is_unique(scheduled(list), entry.0, pos, other);
}

/// Rising lists of the same entries are the same.
proof fn lemma_rising_is_unique<C>(a: Seq<(usize, C)>, b: Seq<(usize, C)>)
    requires
        rising(a),
        rising(b),
        forall|x: (usize, C)| #[trigger] a.contains(x) <==> b.contains(x),
    ensures
        a == b,
    decreases a.len(),
{
    if a.len() == 0 {
        if b.len() > 0 {
            assert(b.contains(b[0]));
            assert(a.contains(b[0]));
        }
        assert(a =~= b);
    } else {
        let last = a.last();
        assert(a.contains(a[a.len() - 1]));
        let j = choose|j: int| 0 <= j < b.len() && b[j] == last;
        assert(j == b.len() - 1) by {
            let top = b[b.len() - 1];
            assert(b.contains(top));
            assert(a.contains(top));
            let i = choose|i: int| 0 <= i < a.len() && a[i] == top;
            if i < a.len() - 1 {
                assert(a[i].0 < a[a.len() - 1].0);
                if j < b.len() - 1 {
                    assert(b[j].0 < b[b.len() - 1].0);
                }
            }
        }
        let a1 = a.drop_last();
        let b1 = b.drop_last();
        assert forall|x: (usize, C)| #[trigger] a1.contains(x) <==> b1.contains(x) by {
            if a1.contains(x) {
                let i = choose|i: int| 0 <= i < a1.len() && a1[i] == x;
                assert(a[i] == x && a[i].0 < a[a.len() - 1].0);
                assert(a.contains(x));
                let k = choose|k: int| 0 <= k < b.len() && b[k] == x;
                assert(b1[k] == x);
            }
            if b1.contains(x) {
                let i = choose|i: int| 0 <= i < b1.len() && b1[i] == x;
                assert(b[i] == x && b[i].0 < b[b.len() - 1].0);
                assert(b.contains(x));
                assert(a.contains(x));
                let k = choose|k: int| 0 <= k < a.len() && a[k] == x;
                assert(a1[k] == x);
            }
        }
        lemma_rising_is_unique(a1, b1);
        assert(a =~= a1.push(last));
        assert(b =~= b1.push(last));
    }
}

/// The order in which suspensions are scheduled does not matter.
pub proof fn law_scheduling_order_is_irrelevant<C>(one: Seq<(usize, C)>, other: Seq<(usize, C)>)
    requires
        distinct_quanta(one),
        distinct_quanta(other),
        forall|x: (usize, C)| #[trigger] one.contains(x) <==> other.contains(x),
    ensures
        scheduled(one) == scheduled(other),
{
    law_schedule_holds_what_was_scheduled(one);
    law_schedule_holds_what_was_scheduled(other);
    assert forall|x: (usize, C)| #[trigger] scheduled(one).contains(x) <==> scheduled(other).contains(
        x,
    ) by {
        assert(one.contains(x) <==> other.contains(x));
    }
    lemma_rising_is_unique(scheduled(one), scheduled(other));
}

/// Whatever the order in which suspensions were scheduled, walking the render quanta hands out each
/// of them exactly once, at its own quantum, in rising order.
pub proof fn law_suspensions_are_handed_out_in_order<C>(list: Seq<(usize, C)>, n: nat)
    requires
        distinct_quanta(list),
        forall|i: int| 0 <= i < list.len() ==> (#[trigger] list[i]).0 < n,
        n <= usize::MAX,
    ensures
        rising(handed_out(scheduled(list), n)),
        handed_out(scheduled(list), n).len() == list.len(),
        forall|x: (usize, C)| #[trigger]
            handed_out(scheduled(list), n).contains(x) <==> list.contains(x),
        left_after(scheduled(list), n).len() == 0,
{
    law_schedule_holds_what_was_scheduled(list);
    let entries = scheduled(list);
    assert forall|i: int| 0 <= i < entries.len() implies (#[trigger] entries[i]).0 < n by {
        assert(entries.contains(entries[i]));
        assert(list.contains(entries[i]));
        let j = choose|j: int| 0 <= j < list.len() && list[j] == entries[i];
        assert(list[j].0 < n);
    }
    law_walk_hands_out_each_action_once(entries, n);
}

} // verus!
