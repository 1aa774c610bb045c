//! The table of broadcast requests that wait for a response: one completion
//! slot per task id.
use vstd::prelude::*;

verus! {

/// Why a task id could not be registered.
#[derive(PartialEq, Eq, Structural, Clone, Copy, Debug)]
pub enum PendingError {
    /// The task id already has an entry.
    DuplicateTask,
}

/// Registering `t` with `slot` in `m`: whether it succeeds, and the table after.
pub open spec fn register_outcome<S>(m: Map<Seq<char>, S>, t: Seq<char>, slot: S) -> (bool, Map<Seq<char>, S>) {
    if m.contains_key(t) {
        (false, m)
    } else {
        (true, m.insert(t, slot))
    }
}

/// Resolving `t` in `m`: the slot that receives the result, if any, and the
/// table after.
pub open spec fn resolve_outcome<S>(m: Map<Seq<char>, S>, t: Seq<char>) -> (Option<S>, Map<Seq<char>, S>) {
    if m.contains_key(t) {
        (Some(m[t]), m.remove(t))
    } else {
        (None, m)
    }
}

/// Of two registrations of one task id, the second fails and leaves the
/// table as the first left it: at most one succeeds while an entry is
/// outstanding.
pub proof fn lemma_register_once<S>(m: Map<Seq<char>, S>, t: Seq<char>, s1: S, s2: S)
    ensures
        !register_outcome(register_outcome(m, t, s1).1, t, s2).0,
        register_outcome(register_outcome(m, t, s1).1, t, s2).1 == register_outcome(m, t, s1).1,
{
}

/// Resolving a task that is not outstanding delivers nothing and changes
/// nothing.
pub proof fn lemma_resolve_absent<S>(m: Map<Seq<char>, S>, t: Seq<char>)
    requires
        !m.contains_key(t),
    ensures
        resolve_outcome(m, t) == (None::<S>, m),
{
}

/// A second resolve of the same task, or one after the entry expired, is
/// dropped.
pub proof fn lemma_resolve_after_removal<S>(m: Map<Seq<char>, S>, t: Seq<char>)
    ensures
        resolve_outcome(resolve_outcome(m, t).1, t) == (None::<S>, resolve_outcome(m, t).1),
        resolve_outcome(m.remove(t), t) == (None::<S>, m.remove(t)),
{
}

struct PendingEntry<S> {
    task_id: String,
    slot: S,
}

/// In-flight requests by task id; `S` is whatever the caller waits on.
pub struct PendingRequests<S> {
    entries: Vec<PendingEntry<S>>,
}

impl<S> View for PendingRequests<S> {
    type V = Map<Seq<char>, S>;

    /// The outstanding slots, by task id.
    closed spec fn view(&self) -> Map<Seq<char>, S> {
        Map::new(
            |t: Seq<char>| exists|i: int| 0 <= i < self.entries@.len() && self.entries@[i].task_id@ == t,
            |t: Seq<char>|
                self.entries@[choose|i: int|
                    0 <= i < self.entries@.len() && self.entries@[i].task_id@ == t].slot,
        )
    }
}

impl<S> PendingRequests<S> {
    /// No task id has two entries.
    pub closed spec fn wf(&self) -> bool {
        forall|i: int, j: int|
            0 <= i < self.entries@.len() && 0 <= j < self.entries@.len() && i != j
                ==> #[trigger] self.entries@[i].task_id@ != #[trigger] self.entries@[j].task_id@
    }

    proof fn lemma_view_at(&self, i: int)
        requires
            self.wf(),
            0 <= i < self.entries@.len(),
        ensures
            self@.contains_key(self.entries@[i].task_id@),
            self@[self.entries@[i].task_id@] == self.entries@[i].slot,
    {
        let k = self.entries@[i].task_id@;
        assert(exists|j: int| 0 <= j < self.entries@.len() && self.entries@[j].task_id@ == k);
        let j = choose|j: int| 0 <= j < self.entries@.len() && self.entries@[j].task_id@ == k;
        assert(i == j);
    }

    /// An empty table.
    pub fn new() -> (r: PendingRequests<S>)
        ensures
            r.wf(),
            r@ == Map::<Seq<char>, S>::empty(),
    {
        let r = PendingRequests { entries: Vec::new() };
        assert(r@ =~= Map::<Seq<char>, S>::empty());
        r
    }

    /// The number of outstanding entries.
    pub fn len(&self) -> (r: usize)
        requires
            self.wf(),
        ensures
            r == self@.len(),
    {
        proof { self.lemma_len(); }
        self.entries.len()
    }

    proof fn lemma_len(&self)
        requires
            self.wf(),
        ensures
            self@.dom().finite(),
            self@.len() == self.entries@.len(),
        decreases self.entries@.len(),
    {
        let n = self.entries@.len();
        let ids = self.entries@.map_values(|e: PendingEntry<S>| e.task_id@);
        assert forall|i: int, j: int| 0 <= i < ids.len() && 0 <= j < ids.len() && i != j
            implies ids[i] != ids[j] by {
            assert(ids[i] == self.entries@[i].task_id@);
            assert(ids[j] == self.entries@[j].task_id@);
        }
        assert(ids.no_duplicates());
        ids.unique_seq_to_set();
        assert forall|t: Seq<char>| self@.dom().contains(t) <==> ids.to_set().contains(t) by {
            if self@.dom().contains(t) {
                let i = choose|i: int| 0 <= i < self.entries@.len() && self.entries@[i].task_id@ == t;
                assert(ids[i] == t);
            }
            if ids.to_set().contains(t) {
                let i = choose|i: int| 0 <= i < ids.len() && ids[i] == t;
                assert(self.entries@[i].task_id@ == t);
            }
        }
        assert(self@.dom() =~= ids.to_set());
    }

    fn position(&self, task_id: &String) -> (r: Option<usize>)
        requires
            self.wf(),
        ensures
            match r {
                Some(i) => i < self.entries@.len() && self.entries@[i as int].task_id@ == task_id@,
                None => !self@.contains_key(task_id@),
            },
    {
        let n = self.entries.len();
        let mut i: usize = 0;
        while i < n
            invariant
                n == self.entries@.len(),
                i <= n,
                forall|j: int| 0 <= j < i ==> self.entries@[j].task_id@ != task_id@,
            decreases n - i,
        {
            if self.entries[i].task_id == *task_id {
                return Some(i);
            }
            i = i + 1;
        }
        None
    }

    /// Whether `task_id` has an outstanding entry.
    pub fn contains(&self, task_id: &String) -> (r: bool)
        requires
            self.wf(),
        ensures
            r == self@.contains_key(task_id@),
    {
        match self.position(task_id) {
            Some(i) => {
                proof { self.lemma_view_at(i as int); }
                true
            },
            None => false,
        }
    }

    /// Inserts an entry for `task_id`; refused while one is outstanding.
    pub fn register(&mut self, task_id: String, slot: S) -> (r: Result<(), PendingError>)
        requires
            old(self).wf(),
        ensures
            final(self).wf(),
            old(self)@.contains_key(task_id@) ==> r == Err::<(), PendingError>(
                PendingError::DuplicateTask,
            ) && final(self)@ == old(self)@,
            !old(self)@.contains_key(task_id@) ==> r is Ok && final(self)@ == old(self)@.insert(
                task_id@,
                slot,
            ),
            register_outcome(old(self)@, task_id@, slot) == (r is Ok, final(self)@),
    {
        match self.position(&task_id) {
            Some(i) => {
                proof { self.lemma_view_at(i as int); }
                Err(PendingError::DuplicateTask)
            },
            None => {
                let ghost old_entries = self.entries@;
                let ghost old_view = self@;
                let ghost t = task_id@;
                self.entries.push(PendingEntry { task_id, slot });
                assert(self.entries@[old_entries.len() as int].task_id@ == t);
                assert(forall|j: int| 0 <= j < old_entries.len() ==> self.entries@[j] == old_entries[j]);
                proof {
                    let new_view = old_view.insert(t, slot);
                    assert forall|k: Seq<char>| #[trigger] self@.contains_key(k) <==> new_view.contains_key(k) by {
                        if new_view.contains_key(k) && k != t {
                            let j = choose|j: int| 0 <= j < old_entries.len() && old_entries[j].task_id@ == k;
                            assert(self.entries@[j].task_id@ == k);
                        }
                    }
                    assert forall|k: Seq<char>| #[trigger] self@.contains_key(k) implies self@[k] == new_view[k] by {
                        let j = choose|j: int| 0 <= j < self.entries@.len() && self.entries@[j].task_id@ == k;
                        self.lemma_view_at(j);
                        if k != t {
                            let m = choose|m: int| 0 <= m < old_entries.len() && old_entries[m].task_id@ == k;
                            assert(self.entries@[m].task_id@ == k);
                            self.lemma_view_at(m);
                        }
                    }
                    assert(self@ =~= new_view);
                }
                Ok(())
            },
        }
    }

    /// Removes the entry for `task_id` and hands back its slot; `None`, with
    /// the table unchanged, when there is no such entry.
    fn take(&mut self, task_id: &String) -> (r: Option<S>)
        requires
            old(self).wf(),
        ensures
            final(self).wf(),
            final(self)@ == old(self)@.remove(task_id@),
            match r {
                Some(s) => old(self)@.contains_key(task_id@) && s == old(self)@[task_id@],
                None => !old(self)@.contains_key(task_id@),
            },
    {
        match self.position(task_id) {
            Some(i) => {
                proof { self.lemma_view_at(i as int); }
                let ghost old_entries = self.entries@;
                let ghost old_view = self@;
                let ghost t = task_id@;
                let e = self.entries.remove(i);
                proof {
                    assert forall|a: int, b: int|
                        0 <= a < self.entries@.len() && 0 <= b < self.entries@.len() && a != b
                        implies #[trigger] self.entries@[a].task_id@ != #[trigger] self.entries@[b].task_id@ by {
                        let sa = if a < i { a } else { a + 1 };
                        let sb = if b < i { b } else { b + 1 };
                        assert(self.entries@[a] == old_entries[sa]);
                        assert(self.entries@[b] == old_entries[sb]);
                    }
                    let new_view = old_view.remove(t);
                    assert forall|k: Seq<char>| #[trigger] self@.contains_key(k) <==> new_view.contains_key(k) by {
                        if self@.contains_key(k) {
                            let j = choose|j: int| 0 <= j < self.entries@.len() && self.entries@[j].task_id@ == k;
                            let sj = if j < i { j } else { j + 1 };
                            assert(self.entries@[j] == old_entries[sj]);
                            assert(sj != i);
                        }
                        if new_view.contains_key(k) {
                            let j = choose|j: int| 0 <= j < old_entries.len() && old_entries[j].task_id@ == k;
                            assert(j != i);
                            let nj = if j < i { j } else { j - 1 };
                            assert(self.entries@[nj] == old_entries[j]);
                        }
                    }
                    assert forall|k: Seq<char>| #[trigger] self@.contains_key(k) implies self@[k] == new_view[k] by {
                        let j = choose|j: int| 0 <= j < self.entries@.len() && self.entries@[j].task_id@ == k;
                        self.lemma_view_at(j);
                        let sj = if j < i { j } else { j + 1 };
                        assert(self.entries@[j] == old_entries[sj]);
                        assert(old_entries[sj].task_id@ == k);
                        let m = choose|m: int| 0 <= m < old_entries.len() && old_entries[m].task_id@ == k;
                        assert(m == sj);
                    }
                    assert(self@ =~= new_view);
                }
                Some(e.slot)
            },
            None => {
                assert(self@ =~= self@.remove(task_id@));
                None
            },
        }
    }

    /// Delivers a response: removes the entry for `task_id` and hands back
    /// its slot together with `result`. A response for a task that is not
    /// outstanding (late, repeated, or timed out) is dropped: `None`, and the
    /// table is unchanged.
    pub fn resolve(&mut self, task_id: &String, result: Result<String, String>) -> (r: Option<(S, Result<String, String>)>)
        requires
            old(self).wf(),
        ensures
            final(self).wf(),
            final(self)@ == old(self)@.remove(task_id@),
            match r {
                Some((s, res)) => old(self)@.contains_key(task_id@) && s == old(self)@[task_id@]
                    && res == result,
                None => !old(self)@.contains_key(task_id@) && final(self)@ == old(self)@,
            },
            resolve_outcome(old(self)@, task_id@) == (
                match r {
                    Some(p) => Some(p.0),
                    None => None::<S>,
                },
                final(self)@,
            ),
    {
        match self.take(task_id) {
            Some(s) => Some((s, result)),
            None => {
                assert(self@ =~= old(self)@);
                None
            },
        }
    }

    /// Drops the entry for `task_id` without delivering anything; returns
    /// whether there was one.
    pub fn expire(&mut self, task_id: &String) -> (r: bool)
        requires
            old(self).wf(),
        ensures
            final(self).wf(),
            final(self)@ == old(self)@.remove(task_id@),
            r == old(self)@.contains_key(task_id@),
    {
        match self.take(task_id) {
            Some(_) => true,
            None => false,
        }
    }
}

} // verus!
