//! First-success-wins resolution of one chain's height over its endpoints.

use vstd::prelude::*;
use crate::fetch::{FetchError, FetchKind};

verus! {

/// The first height among `attempts`, taken in order; `None` where every
/// attempt failed.
pub open spec fn first_success(attempts: Seq<Option<u64>>) -> Option<u64>
    decreases attempts.len(),
{
    if attempts.len() == 0 {
        None
    } else if attempts[0] is Some {
        attempts[0]
    } else {
        first_success(attempts.drop_first())
    }
}

/// The height a chain holds after a cycle whose attempts were `attempts`:
/// the first fresh height, else the height it held before.
pub open spec fn height_after(attempts: Seq<Option<u64>>, previous: u64) -> u64 {
    match first_success(attempts) {
        Some(h) => h,
        None => previous,
    }
}

/// What a resolution asks for next.
#[derive(Clone, Debug)]
pub enum ResolveStep {
    /// Try the endpoint at this position of the chain's list.
    Fetch { index: usize, endpoint: String },
    /// Finished: the first height an endpoint gave, or `None` where all failed.
    Done(Option<u64>),
}

/// The resolution of one chain's height in one cycle: endpoints are tried one
/// at a time in list order, and the first success ends it.
pub struct ChainResolver {
    endpoints: Vec<String>,
    kind: FetchKind,
    next: usize,
    found: Option<u64>,
    tried: Ghost<Seq<Option<u64>>>,
}

impl ChainResolver {
    /// The endpoints, in the order they are tried.
    pub closed spec fn endpoint_list(&self) -> Seq<Seq<char>> {
        self.endpoints.deep_view()
    }

    /// The outcome of each attempt made so far, in order.
    pub closed spec fn attempts(&self) -> Seq<Option<u64>> {
        self.tried@
    }

    /// The request kind every attempt makes.
    pub closed spec fn fetch_kind(&self) -> FetchKind {
        self.kind
    }

    pub closed spec fn wf(&self) -> bool {
        &&& self.next <= self.endpoints.len()
        &&& self.tried@.len() == self.next
        &&& self.found == first_success(self.tried@)
        &&& (self.found is Some ==> self.tried@.last() is Some)
    }

    /// Every endpoint has been tried, or one has given a height.
    pub open spec fn finished(&self) -> bool {
        first_success(self.attempts()) is Some || self.attempts().len() == self.endpoint_list().len()
    }

    /// Starts the resolution over `endpoints`, each asked with a request of kind `kind`.
    pub fn new(endpoints: Vec<String>, kind: FetchKind) -> (r: ChainResolver)
        ensures
            r.wf(),
            r.endpoint_list() == endpoints.deep_view(),
            r.fetch_kind() == kind,
            r.attempts() == Seq::<Option<u64>>::empty(),
    {
        ChainResolver { endpoints, kind, next: 0, found: None, tried: Ghost(Seq::empty()) }
    }

    /// The request kind to make at each endpoint.
    pub fn kind(&self) -> (r: FetchKind)
        ensures
            r == self.fetch_kind(),
    {
        self.kind
    }

    /// What to do next: fetch from the next endpoint in order, or report the
    /// first height found (or that there is none) once finished.
    pub fn next_step(&self) -> (r: ResolveStep)
        requires
            self.wf(),
        ensures
            match r {
                ResolveStep::Done(h) => self.finished() && h == first_success(self.attempts()),
                ResolveStep::Fetch { index, endpoint } => {
                    &&& !self.finished()
                    &&& index == self.attempts().len()
                    &&& endpoint@ == self.endpoint_list()[index as int]
                },
            },
    {
        if self.found.is_some() || self.next == self.endpoints.len() {
            ResolveStep::Done(self.found)
        } else {
            let endpoint = self.endpoints[self.next].clone();
            ResolveStep::Fetch { index: self.next, endpoint }
        }
    }

    /// Records the result of the attempt at the next endpoint.
    pub fn record(&mut self, result: &Result<u64, FetchError>)
        requires
            old(self).wf(),
            !old(self).finished(),
        ensures
            final(self).wf(),
            final(self).endpoint_list() == old(self).endpoint_list(),
            final(self).fetch_kind() == old(self).fetch_kind(),
            final(self).attempts() == old(self).attempts().push(
                match result {
                    Ok(h) => Some(*h),
                    Err(_) => None,
                },
            ),
    {
        let outcome: Option<u64> = match result {
            Ok(h) => Some(*h),
            Err(_) => None,
        };
        proof {
            lemma_first_success_push(self.tried@, outcome);
        }
        self.tried = Ghost(self.tried@.push(outcome));
        self.next = self.next + 1;
        self.found = outcome;
    }
}

/// Appending an attempt to attempts that all failed: the first success is the
/// new attempt's height, if any.
proof fn lemma_first_success_push(attempts: Seq<Option<u64>>, a: Option<u64>)
    requires
        first_success(attempts) is None,
    ensures
        first_success(attempts.push(a)) == a,
    decreases attempts.len(),
{
    if attempts.len() > 0 {
        assert(attempts.push(a).drop_first() =~= attempts.drop_first().push(a));
        assert(attempts.push(a)[0] == attempts[0]);
        lemma_first_success_push(attempts.drop_first(), a);
    } else {
        assert(attempts.push(a).drop_first() =~= Seq::<Option<u64>>::empty());
        assert(first_success(Seq::<Option<u64>>::empty()) is None);
    }
}

/// A resolution never makes more attempts than the chain has endpoints, so a
/// cycle in which every request is cut off after a fixed time ends within
/// that time for each endpoint.
pub proof fn lemma_attempts_bounded(r: &ChainResolver)
    requires
        r.wf(),
    ensures
        r.attempts().len() <= r.endpoint_list().len(),
        r.attempts().len() == r.endpoint_list().len() ==> r.finished(),
{
}

/// A success within the first `k` attempts is the first success of them all.
proof fn lemma_first_success_prefix(attempts: Seq<Option<u64>>, k: int)
    requires
        0 <= k <= attempts.len(),
        first_success(attempts.take(k)) is Some,
    ensures
        first_success(attempts) == first_success(attempts.take(k)),
    decreases attempts.len(),
{
    let p = attempts.take(k);
    if k > 0 && attempts[0] is None {
        assert(p[0] == attempts[0]);
        assert(p.drop_first() =~= attempts.drop_first().take(k - 1));
        lemma_first_success_prefix(attempts.drop_first(), k - 1);
    } else if k > 0 {
        assert(p[0] == attempts[0]);
    } else {
        assert(p =~= Seq::<Option<u64>>::empty());
    }
}

/// If every endpoint of a chain fails in a cycle, the chain keeps the height
/// it held before the cycle.
pub proof fn lemma_all_fail_keeps_height(attempts: Seq<Option<u64>>, previous: u64)
    requires
        forall|i: int| 0 <= i < attempts.len() ==> (#[trigger] attempts[i]) is None,
    ensures
        height_after(attempts, previous) == previous,
    decreases attempts.len(),
{
    if attempts.len() > 0 {
        assert(attempts[0] is None);
        let rest = attempts.drop_first();
        assert forall|i: int| 0 <= i < rest.len() implies (#[trigger] rest[i]) is None by {
            assert(rest[i] == attempts[i + 1]);
        }
        lemma_all_fail_keeps_height(rest, previous);
    }
}

/// If some endpoint of a chain succeeds in a cycle, the chain takes the height
/// reported by the first endpoint, in list order, that succeeded.
pub proof fn lemma_first_success_wins(attempts: Seq<Option<u64>>, previous: u64, i: int)
    requires
        0 <= i < attempts.len(),
        attempts[i] is Some,
        forall|j: int| 0 <= j < i ==> (#[trigger] attempts[j]) is None,
    ensures
        height_after(attempts, previous) == attempts[i]->0,
    decreases attempts.len(),
{
    if i > 0 {
        assert(attempts[0] is None);
        let rest = attempts.drop_first();
        assert forall|j: int| 0 <= j < i - 1 implies (#[trigger] rest[j]) is None by {
            assert(rest[j] == attempts[j + 1]);
        }
        assert(rest[i - 1] == attempts[i]);
        lemma_first_success_wins(rest, previous, i - 1);
    }
}

/// A finished resolution reports the first success over the outcomes that
/// all of the chain's endpoints would give: the endpoints it did not try,
/// after a success, cannot change its result.
pub proof fn lemma_resolution_is_first_success(r: &ChainResolver, outcomes: Seq<Option<u64>>)
    requires
        r.wf(),
        r.finished(),
        outcomes.len() == r.endpoint_list().len(),
        r.attempts() == outcomes.take(r.attempts().len() as int),
    ensures
        first_success(r.attempts()) == first_success(outcomes),
{
    if first_success(r.attempts()) is Some {
        lemma_first_success_prefix(outcomes, r.attempts().len() as int);
    } else {
        assert(r.attempts().len() == outcomes.len());
        assert(outcomes.take(outcomes.len() as int) =~= outcomes);
    }
}

} // verus!
