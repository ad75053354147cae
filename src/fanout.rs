//! Admission and collection for a batch of queries: at most `limit` run at once,
//! the next waiting one starts as soon as one finishes, and every target's
//! outcome is kept, in completion order.
use vstd::prelude::*;

verus! {

/// Where `x` stands in `v`.
fn position(v: &Vec<usize>, x: usize) -> (r: Option<usize>)
    ensures
        match r {
            Some(p) => p < v@.len() && v@[p as int] == x,
            None => !v@.contains(x),
        },
{
    let mut i: usize = 0;
    while i < v.len()
        invariant
            i <= v@.len(),
            forall|j: int| 0 <= j < i ==> v@[j] != x,
        decreases v.len() - i,
    {
        if v[i] == x {
            return Some(i);
        }
        i = i + 1;
    }
    None
}

/// The state of a batch of `total` queries, numbered from 0, run at most
/// `limit` at a time.
pub struct FanOut<T> {
    total: usize,
    limit: usize,
    next: usize,
    active: Vec<usize>,
    results: Vec<(usize, T)>,
}

impl<T> FanOut<T> {
    pub closed spec fn total(&self) -> nat {
        self.total as nat
    }

    pub closed spec fn limit(&self) -> nat {
        self.limit as nat
    }

    /// How many queries have been started.
    pub closed spec fn started(&self) -> nat {
        self.next as nat
    }

    /// The queries started and not finished.
    pub closed spec fn in_flight(&self) -> Seq<usize> {
        self.active@
    }

    /// The finished queries and their outcomes, in the order they finished.
    pub closed spec fn outcomes(&self) -> Seq<(usize, T)> {
        self.results@
    }

    /// Every query started so far is either in flight or finished, never both,
    /// and never twice; no more than `limit` are in flight.
    pub closed spec fn wf(&self) -> bool {
        &&& 1 <= self.limit
        &&& self.active@.len() <= self.limit
        &&& self.next <= self.total
        &&& self.active@.len() + self.results@.len() == self.next
        &&& forall|i: int, j: int|
            0 <= i < j < self.active@.len() ==> self.active@[i] != self.active@[j]
        &&& forall|i: int, j: int|
            0 <= i < j < self.results@.len() ==> self.results@[i].0 != self.results@[j].0
        &&& forall|i: int, j: int|
            0 <= i < self.active@.len() && 0 <= j < self.results@.len() ==> self.active@[i]
                != self.results@[j].0
        &&& forall|i: int| 0 <= i < self.active@.len() ==> self.active@[i] < self.next
        &&& forall|j: int| 0 <= j < self.results@.len() ==> self.results@[j].0 < self.next
    }

    /// A batch of `total` queries, none started. A limit of zero admits one
    /// query at a time, so that every batch can complete.
    pub fn new(total: usize, limit: usize) -> (r: Self)
        ensures
            r.wf(),
            r.total() == total,
            r.limit() == (if limit == 0 {
                1
            } else {
                limit
            }),
            r.started() == 0,
            r.in_flight().len() == 0,
            r.outcomes().len() == 0,
    {
        let limit = if limit == 0 {
            1
        } else {
            limit
        };
        FanOut { total, limit, next: 0, active: Vec::new(), results: Vec::new() }
    }

    /// Starts the next waiting query if there is one and fewer than `limit`
    /// are in flight, and gives its number.
    pub fn start_next(&mut self) -> (r: Option<usize>)
        requires
            old(self).wf(),
        ensures
            final(self).wf(),
            final(self).total() == old(self).total(),
            final(self).limit() == old(self).limit(),
            final(self).outcomes() == old(self).outcomes(),
            if old(self).started() < old(self).total() && old(self).in_flight().len() < old(
                self,
            ).limit() {
                &&& r == Some(old(self).started() as usize)
                &&& final(self).started() == old(self).started() + 1
                &&& final(self).in_flight() == old(self).in_flight().push(
                    old(self).started() as usize,
                )
            } else {
                &&& r is None
                &&& final(self).started() == old(self).started()
                &&& final(self).in_flight() == old(self).in_flight()
            },
    {
        if self.next < self.total && self.active.len() < self.limit {
            let n = self.next;
            self.active.push(n);
            self.next = n + 1;
            Some(n)
        } else {
            None
        }
    }

    /// Whether query `index` is in flight.
    pub fn is_running(&self, index: usize) -> (r: bool)
        ensures
            r == self.in_flight().contains(index),
    {
        position(&self.active, index).is_some()
    }

    /// Records the outcome of query `index`, which must be in flight; returns
    /// whether it was. A query not in flight leaves the state as it is.
    pub fn finish(&mut self, index: usize, outcome: T) -> (r: bool)
        requires
            old(self).wf(),
        ensures
            final(self).wf(),
            final(self).total() == old(self).total(),
            final(self).limit() == old(self).limit(),
            final(self).started() == old(self).started(),
            r == old(self).in_flight().contains(index),
            r ==> final(self).outcomes() == old(self).outcomes().push((index, outcome))
                && final(self).in_flight().len() == old(self).in_flight().len() - 1
                && !final(self).in_flight().contains(index),
            !r ==> final(self).outcomes() == old(self).outcomes() && final(self).in_flight()
                == old(self).in_flight(),
    {
        let p = match position(&self.active, index) {
            Some(p) => p,
            None => {
                return false;
            },
        };
        let ghost old_active = self.active@;
        let ghost old_results = self.results@;
        self.active.swap_remove(p);
        self.results.push((index, outcome));
        assert forall|k: int| 0 <= k < self.active@.len() implies self.active@[k] != index by {
            if k == p {
                assert(self.active@[k] == old_active[old_active.len() - 1]);
            } else {
                assert(self.active@[k] == old_active[k]);
            }
        }
        assert forall|j: int| 0 <= j < self.results@.len() - 1 implies self.results@[j]
            == old_results[j] by {}
        assert forall|i: int| 0 <= i < self.active@.len() implies #[trigger] self.active@[i]
            == (if i == p {
            old_active[old_active.len() - 1]
        } else {
            old_active[i]
        }) by {}
        assert(old_active.contains(index)) by {
            assert(old_active[p as int] == index);
        }
        true
    }

    /// Whether every query has been started and has finished.
    pub fn is_done(&self) -> (r: bool)
        ensures
            r == (self.started() == self.total() && self.in_flight().len() == 0),
    {
        self.next == self.total && self.active.len() == 0
    }

    /// The outcomes, in the order the queries finished.
    pub fn into_outcomes(self) -> (r: Vec<(usize, T)>)
        ensures
            r@ == self.outcomes(),
    {
        self.results
    }

    /// No more than `limit` queries are ever in flight at once.
    pub proof fn lemma_in_flight_bounded(&self)
        requires
            self.wf(),
        ensures
            self.in_flight().len() <= self.limit(),
    {
    }

    /// A batch that is not done can always move: either a waiting query can
    /// start, or one is in flight and will finish.
    pub proof fn lemma_progress(&self)
        requires
            self.wf(),
            !(self.started() == self.total() && self.in_flight().len() == 0),
        ensures
            (self.started() < self.total() && self.in_flight().len() < self.limit())
                || self.in_flight().len() > 0,
    {
    }

    /// Once every query has started and finished, there is exactly one outcome
    /// per query: `total` outcomes, each for a distinct query number below `total`.
    pub proof fn lemma_every_outcome_once(&self)
        requires
            self.wf(),
            self.started() == self.total(),
            self.in_flight().len() == 0,
        ensures
            self.outcomes().len() == self.total(),
            forall|j: int| 0 <= j < self.outcomes().len() ==> self.outcomes()[j].0 < self.total(),
            forall|i: int, j: int|
                0 <= i < j < self.outcomes().len() ==> self.outcomes()[i].0 != self.outcomes()[j].0,
    {
    }
}

} // verus!
