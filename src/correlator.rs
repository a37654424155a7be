//! The correlator: id allocation and the table of pending requests.
//!
//! Each outgoing request gets a fresh id and leaves a one-shot completion in
//! the table; the matching response, or a local failure, takes it out
//! again, exactly once.
use vstd::prelude::*;

use std::collections::HashMap;

verus! {

broadcast use vstd::std_specs::hash::group_hash_axioms;

/// What a correlator holds, as mathematics.
pub ghost struct CorrelatorView<C> {
    /// The id that the next request will get.
    pub next_id: u64,
    /// The completions of the requests still waiting for a response.
    pub pending: Map<u64, C>,
    /// Whether the transport behind it has gone; no request is taken then.
    pub closed: bool,
}

/// The table of pending requests and the id counter.
pub struct Correlator<C> {
    next_id: u64,
    pending: HashMap<u64, C>,
    closed: bool,
}

/// `id` was handed out by a registration that took the correlator from
/// `before` to `after`.
pub open spec fn allocation<C>(before: CorrelatorView<C>, after: CorrelatorView<C>, id: u64) -> bool {
    &&& id == before.next_id
    &&& after.next_id == id + 1
}

impl<C> View for Correlator<C> {
    type V = CorrelatorView<C>;

    closed spec fn view(&self) -> CorrelatorView<C> {
        CorrelatorView { next_id: self.next_id, pending: self.pending@, closed: self.closed }
    }
}

impl<C> Correlator<C> {
    /// Every pending id was handed out already.
    pub open spec fn wf(&self) -> bool {
        forall|id: u64| #[trigger] self@.pending.contains_key(id) ==> id < self@.next_id
    }

    /// An open correlator with nothing pending; the first id is 0.
    pub fn new() -> (r: Self)
        ensures
            r.wf(),
            r@.next_id == 0,
            r@.pending == Map::<u64, C>::empty(),
            !r@.closed,
    {
        let r = Correlator { next_id: 0, pending: HashMap::new(), closed: false };
        assert(r@.pending =~= Map::<u64, C>::empty());
        r
    }

    /// Allocates the next id and leaves `c` pending under it. Once the
    /// correlator is closed or every id has been used, nothing changes and
    /// `c` comes back.
    pub fn register(&mut self, c: C) -> (r: Result<u64, C>)
        requires
            old(self).wf(),
        ensures
            final(self).wf(),
            r is Err <==> (old(self)@.closed || old(self)@.next_id == u64::MAX),
            r matches Err(back) ==> back == c && final(self)@ == old(self)@,
            r matches Ok(id) ==> {
                &&& allocation(old(self)@, final(self)@, id)
                &&& !old(self)@.pending.contains_key(id)
                &&& final(self)@.pending == old(self)@.pending.insert(id, c)
                &&& final(self)@.closed == old(self)@.closed
            },
    {
        if self.closed || self.next_id == u64::MAX {
            return Err(c);
        }
        let id = self.next_id;
        self.pending.insert(id, c);
        self.next_id = id + 1;
        assert forall|k: u64| #[trigger] self@.pending.contains_key(k) implies k < self@.next_id by {
            if k != id {
                assert(old(self)@.pending.contains_key(k));
            }
        }
        Ok(id)
    }

    /// Takes out the completion pending under `id`, if there is one.
    pub fn resolve(&mut self, id: u64) -> (r: Option<C>)
        requires
            old(self).wf(),
        ensures
            final(self).wf(),
            final(self)@.pending == old(self)@.pending.remove(id),
            final(self)@.next_id == old(self)@.next_id,
            final(self)@.closed == old(self)@.closed,
            r == (if old(self)@.pending.contains_key(id) {
                Some(old(self)@.pending[id])
            } else {
                None
            }),
    {
        let r = self.pending.remove(&id);
        assert forall|k: u64| #[trigger] self@.pending.contains_key(k) implies k < self@.next_id by {
            assert(old(self)@.pending.contains_key(k));
        }
        r
    }

    /// Closes the correlator and hands out everything still pending, so
    /// that each waiting request can be failed.
    pub fn close(&mut self) -> (r: HashMap<u64, C>)
        requires
            old(self).wf(),
        ensures
            final(self).wf(),
            r@ == old(self)@.pending,
            final(self)@.pending == Map::<u64, C>::empty(),
            final(self)@.next_id == old(self)@.next_id,
            final(self)@.closed,
    {
        let mut taken = HashMap::new();
        std::mem::swap(&mut taken, &mut self.pending);
        self.closed = true;
        assert(self@.pending =~= Map::<u64, C>::empty());
        taken
    }

    /// Whether a completion is pending under `id`.
    pub fn is_pending(&self, id: u64) -> (r: bool)
        ensures
            r == self@.pending.contains_key(id),
    {
        self.pending.contains_key(&id)
    }

    /// How many requests are pending.
    pub fn pending_count(&self) -> (r: usize)
        ensures
            r == self@.pending.len(),
    {
        self.pending.len()
    }

    /// The id that the next request will get.
    pub fn next_id(&self) -> (r: u64)
        ensures
            r == self@.next_id,
    {
        self.next_id
    }

    /// Whether the correlator has been closed.
    pub fn is_closed(&self) -> (r: bool)
        ensures
            r == self@.closed,
    {
        self.closed
    }
}

proof fn lemma_ids_increase<C>(
    before: Seq<CorrelatorView<C>>,
    after: Seq<CorrelatorView<C>>,
    ids: Seq<u64>,
    i: int,
    j: int,
)
    requires
        before.len() == ids.len(),
        after.len() == ids.len(),
        forall|k: int| 0 <= k < ids.len() ==> #[trigger] allocation(before[k], after[k], ids[k]),
        forall|k: int| 0 <= k < ids.len() - 1 ==> after[k].next_id <= #[trigger] before[k + 1].next_id,
        0 <= i < j < ids.len(),
    ensures
        ids[i] < ids[j],
    decreases j - i,
{
    assert(allocation(before[i], after[i], ids[i]));
    assert(allocation(before[i + 1], after[i + 1], ids[i + 1]));
    assert(after[i].next_id <= before[i + 1].next_id);
    if i + 1 < j {
        lemma_ids_increase(before, after, ids, i + 1, j);
    }
}

/// Registrations made one after another on one correlator hand out pairwise
/// distinct ids, whatever else is done to it between them: each
/// registration goes from `before[k]` to `after[k]` and hands out `ids[k]`,
/// and between two of them the counter does not go back.
pub proof fn lemma_ids_distinct<C>(
    before: Seq<CorrelatorView<C>>,
    after: Seq<CorrelatorView<C>>,
    ids: Seq<u64>,
)
    requires
        before.len() == ids.len(),
        after.len() == ids.len(),
        forall|k: int| 0 <= k < ids.len() ==> #[trigger] allocation(before[k], after[k], ids[k]),
        forall|k: int| 0 <= k < ids.len() - 1 ==> after[k].next_id <= #[trigger] before[k + 1].next_id,
    ensures
        forall|i: int, j: int| 0 <= i < j < ids.len() ==> ids[i] < ids[j],
        forall|i: int, j: int| 0 <= i < ids.len() && 0 <= j < ids.len() && i != j ==> ids[i] != ids[j],
{
    assert forall|i: int, j: int| 0 <= i < j < ids.len() implies ids[i] < ids[j] by {
        lemma_ids_increase(before, after, ids, i, j);
    }
    assert forall|i: int, j: int| 0 <= i < ids.len() && 0 <= j < ids.len() && i != j implies ids[i] != ids[j] by {
        if i < j {
            lemma_ids_increase(before, after, ids, i, j);
        } else {
            lemma_ids_increase(before, after, ids, j, i);
        }
    }
}

/// Registrations made back to back on one correlator, with no other
/// allocation between them, hand out the consecutive ids from the counter
/// they started at, and leave the counter that many higher: for `N`
/// registrations from counter `c0`, the ids are `c0, .., c0 + N - 1` and
/// the counter ends at `c0 + N`.
pub proof fn lemma_ids_consecutive<C>(
    before: Seq<CorrelatorView<C>>,
    after: Seq<CorrelatorView<C>>,
    ids: Seq<u64>,
)
    requires
        before.len() == ids.len(),
        after.len() == ids.len(),
        ids.len() > 0,
        forall|k: int| 0 <= k < ids.len() ==> #[trigger] allocation(before[k], after[k], ids[k]),
        forall|k: int| 0 <= k < ids.len() - 1 ==> after[k].next_id == #[trigger] before[k + 1].next_id,
    ensures
        forall|k: int| 0 <= k < ids.len() ==> ids[k] == before[0].next_id + k,
        after[ids.len() - 1].next_id == before[0].next_id + ids.len(),
        ids.to_set() == Set::new(|n: u64| before[0].next_id <= n < before[0].next_id + ids.len()),
{
    lemma_ids_from(before, after, ids, ids.len() as int);
    let lo = before[0].next_id;
    assert(allocation(before[ids.len() - 1], after[ids.len() - 1], ids[ids.len() - 1]));
    assert forall|n: u64| #[trigger] ids.to_set().contains(n) <==> lo <= n < lo + ids.len() by {
        if lo <= n < lo + ids.len() {
            let k = n - lo;
            assert(ids[k] == n);
        }
    }
    assert(ids.to_set() =~= Set::new(|n: u64| lo <= n < lo + ids.len()));
}

proof fn lemma_ids_from<C>(
    before: Seq<CorrelatorView<C>>,
    after: Seq<CorrelatorView<C>>,
    ids: Seq<u64>,
    n: int,
)
    requires
        before.len() == ids.len(),
        after.len() == ids.len(),
        0 <= n <= ids.len(),
        forall|k: int| 0 <= k < ids.len() ==> #[trigger] allocation(before[k], after[k], ids[k]),
        forall|k: int| 0 <= k < ids.len() - 1 ==> after[k].next_id == #[trigger] before[k + 1].next_id,
    ensures
        forall|k: int| 0 <= k < n ==> ids[k] == before[0].next_id + k,
    decreases n,
{
    if n > 0 {
        lemma_ids_from(before, after, ids, n - 1);
        let k = n - 1;
        assert(allocation(before[k], after[k], ids[k]));
        if k > 0 {
            let j = k - 1;
            assert(allocation(before[j], after[j], ids[j]));
            assert(after[j].next_id == before[j + 1].next_id);
        }
    }
}

} // verus!
