//! The table of running jobs: each job identifier maps to the one handle of
//! its process.  Taking a handle out is the only way to obtain it, so of two
//! takes of the same identifier at most one receives it.
use vstd::prelude::*;
use crate::text::same_text;

verus! {

/// What taking `id` out of the table `m` leaves, and what it hands back.
pub open spec fn take_result<H>(m: Map<Seq<char>, H>, id: Seq<char>) -> (Map<Seq<char>, H>, Option<H>) {
    if m.contains_key(id) {
        (m.remove(id), Some(m[id]))
    } else {
        (m, None)
    }
}

/// Registry of running jobs, keyed by job identifier.
pub struct JobRegistry<H> {
    entries: Vec<(String, H)>,
}

impl<H> JobRegistry<H> {
    /// No identifier appears twice.
    pub closed spec fn wf(&self) -> bool {
        forall|i: int, j: int|
            0 <= i < self.entries@.len() && 0 <= j < self.entries@.len() && i != j
                ==> #[trigger] self.entries@[i].0@ != #[trigger] self.entries@[j].0@
    }

    closed spec fn has_key(&self, k: Seq<char>) -> bool {
        exists|i: int| 0 <= i < self.entries@.len() && #[trigger] self.entries@[i].0@ == k
    }

    closed spec fn index_of(&self, k: Seq<char>) -> int {
        choose|i: int| 0 <= i < self.entries@.len() && #[trigger] self.entries@[i].0@ == k
    }

    /// The table as a map from identifier to handle.
    pub closed spec fn view(&self) -> Map<Seq<char>, H> {
        Map::new(|k: Seq<char>| self.has_key(k), |k: Seq<char>| self.entries@[self.index_of(k)].1)
    }

    proof fn lemma_index_of(&self, i: int)
        requires
            self.wf(),
            0 <= i < self.entries@.len(),
        ensures
            self.has_key(self.entries@[i].0@),
            self.index_of(self.entries@[i].0@) == i,
            self@.contains_key(self.entries@[i].0@),
            self@[self.entries@[i].0@] == self.entries@[i].1,
    {
        let k = self.entries@[i].0@;
        assert(self.has_key(k));
        let j = self.index_of(k);
        assert(self.entries@[j].0@ == k);
    }

    /// An empty registry.
    pub fn new() -> (r: Self)
        ensures
            r.wf(),
            r@ == Map::<Seq<char>, H>::empty(),
    {
        let r = JobRegistry { entries: Vec::new() };
        assert(r@ =~= Map::<Seq<char>, H>::empty());
        r
    }

    fn position(&self, id: &str) -> (r: Option<usize>)
        requires
            self.wf(),
        ensures
            match r {
                Some(i) => i < self.entries@.len() && self.entries@[i as int].0@ == id@,
                None => !self@.contains_key(id@),
            },
    {
        let n = self.entries.len();
        let mut i: usize = 0;
        while i < n
            invariant
                n == self.entries@.len(),
                i <= n,
                forall|j: int| 0 <= j < i ==> self.entries@[j].0@ != id@,
            decreases n - i,
        {
            if same_text(self.entries[i].0.as_str(), id) {
                return Some(i);
            }
            i = i + 1;
        }
        assert(!self.has_key(id@));
        None
    }

    /// Whether a job with identifier `id` is registered.
    pub fn contains(&self, id: &str) -> (r: bool)
        requires
            self.wf(),
        ensures
            r == self@.contains_key(id@),
    {
        match self.position(id) {
            Some(i) => {
                proof {
                    self.lemma_index_of(i as int);
                }
                true
            },
            None => false,
        }
    }

    /// Registers `handle` under `id`.  An identifier that is already
    /// registered is left as it was, and the new handle is handed back.
    pub fn insert(&mut self, id: String, handle: H) -> (r: Result<(), H>)
        requires
            old(self).wf(),
        ensures
            final(self).wf(),
            old(self)@.contains_key(id@) ==> r == Err::<(), H>(handle) && final(self)@ == old(self)@,
            !old(self)@.contains_key(id@) ==> r is Ok && final(self)@ == old(self)@.insert(
                id@,
                handle,
            ),
    {
        match self.position(id.as_str()) {
            Some(i) => {
                proof {
                    self.lemma_index_of(i as int);
                }
                Err(handle)
            },
            None => {
                let ghost prev = *self;
                let ghost k = id@;
                self.entries.push((id, handle));
                let ghost n = self.entries@.len() - 1;
                assert(self.entries@[n].0@ == k);
                assert(self.wf()) by {
                    assert forall|i: int, j: int|
                        0 <= i < self.entries@.len() && 0 <= j < self.entries@.len() && i != j
                            implies #[trigger] self.entries@[i].0@ != #[trigger] self.entries@[j].0@ by {
                        if i < n && j < n {
                            assert(self.entries@[i] == prev.entries@[i]);
                            assert(self.entries@[j] == prev.entries@[j]);
                        } else if i < n {
                            assert(self.entries@[i] == prev.entries@[i]);
                            assert(prev.has_key(prev.entries@[i].0@));
                        } else {
                            assert(self.entries@[j] == prev.entries@[j]);
                            assert(prev.has_key(prev.entries@[j].0@));
                        }
                    }
                }
                assert forall|x: Seq<char>| #[trigger] self.has_key(x) == (prev.has_key(x) || x == k) by {
                    if prev.has_key(x) {
                        let p = prev.index_of(x);
                        assert(self.entries@[p] == prev.entries@[p]);
                    }
                    if self.has_key(x) {
                        let p = self.index_of(x);
                        if p < n {
                            assert(self.entries@[p] == prev.entries@[p]);
                        }
                    }
                }
                assert forall|x: Seq<char>| self.has_key(x) implies self@[x] == #[trigger] prev@.insert(k, handle)[x] by {
                    let p = self.index_of(x);
                    if x == k {
                        self.lemma_index_of(n);
                    } else {
                        assert(p < n);
                        assert(self.entries@[p] == prev.entries@[p]);
                        prev.lemma_index_of(p);
                    }
                }
                assert(self@ =~= prev@.insert(k, handle));
                Ok(())
            },
        }
    }

    /// Removes the job `id` and hands its handle over to the caller, or
    /// returns `None` when no such job is registered.
    pub fn remove_and_take(&mut self, id: &str) -> (r: Option<H>)
        requires
            old(self).wf(),
        ensures
            final(self).wf(),
            (final(self)@, r) == take_result(old(self)@, id@),
    {
        match self.position(id) {
            Some(p) => {
                let ghost prev = *self;
                proof {
                    prev.lemma_index_of(p as int);
                }
                let (_, h) = self.entries.remove(p);
                assert(self.wf()) by {
                    assert forall|i: int, j: int|
                        0 <= i < self.entries@.len() && 0 <= j < self.entries@.len() && i != j
                            implies #[trigger] self.entries@[i].0@ != #[trigger] self.entries@[j].0@ by {
                        let oi = if i < p { i } else { i + 1 };
                        let oj = if j < p { j } else { j + 1 };
                        assert(self.entries@[i] == prev.entries@[oi]);
                        assert(self.entries@[j] == prev.entries@[oj]);
                    }
                }
                assert forall|x: Seq<char>| #[trigger] self.has_key(x) == (prev.has_key(x) && x != id@) by {
                    if prev.has_key(x) && x != id@ {
                        let q = prev.index_of(x);
                        assert(q != p);
                        let ni = if q < p { q } else { q - 1 };
                        assert(self.entries@[ni] == prev.entries@[q]);
                    }
                    if self.has_key(x) {
                        let q = self.index_of(x);
                        let oq = if q < p { q } else { q + 1 };
                        assert(self.entries@[q] == prev.entries@[oq]);
                        assert(oq != p);
                    }
                }
                assert forall|x: Seq<char>| self.has_key(x) implies self@[x] == #[trigger] prev@.remove(id@)[x] by {
                    let q = self.index_of(x);
                    let oq = if q < p { q } else { q + 1 };
                    assert(self.entries@[q] == prev.entries@[oq]);
                    prev.lemma_index_of(oq);
                }
                assert(self@ =~= prev@.remove(id@));
                Some(h)
            },
            None => None,
        }
    }
}

/// Of two successive takes of the same identifier, the second receives
/// nothing, and the first receives the handle exactly when the job was
/// registered.  With the table behind one lock, two concurrent takes run in
/// some order, so exactly one of them obtains a registered job's handle.
pub proof fn lemma_take_is_exclusive<H>(m: Map<Seq<char>, H>, id: Seq<char>)
    ensures
        take_result(take_result(m, id).0, id).1 is None,
        take_result(m, id).1 is Some <==> m.contains_key(id),
{
}

} // verus!
