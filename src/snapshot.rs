//! The heights of one network class, replaced as a whole.

use vstd::prelude::*;

verus! {

/// Heights of the chains of one network class, in a fixed chain order.
#[derive(Debug)]
pub struct Snapshot {
    chains: Vec<String>,
    heights: Vec<u64>,
    fetched: Vec<bool>,
}

/// The height a chain takes from a fresh value, else the one it held.
pub open spec fn merged(fresh: Option<u64>, previous: u64) -> u64 {
    match fresh {
        Some(h) => h,
        None => previous,
    }
}

impl View for Snapshot {
    type V = Map<Seq<char>, u64>;

    /// The mapping from chain identifier to height.
    open spec fn view(&self) -> Map<Seq<char>, u64> {
        Map::new(
            |k: Seq<char>| self.ids().contains(k),
            |k: Seq<char>| self.heights()[self.ids().index_of(k)],
        )
    }
}

impl Snapshot {
    /// The chain identifiers, in order.
    pub closed spec fn ids(&self) -> Seq<Seq<char>> {
        self.chains.deep_view()
    }

    /// The heights, in the order of `ids`.
    pub closed spec fn heights(&self) -> Seq<u64> {
        self.heights@
    }

    /// Whether each chain has had a fresh height since startup, in the order
    /// of `ids`; a chain that never had one reads 0.
    pub closed spec fn fetched_flags(&self) -> Seq<bool> {
        self.fetched@
    }

    /// One height and one flag per chain, and no chain twice.
    pub open spec fn wf(&self) -> bool {
        &&& self.ids().len() == self.heights().len()
        &&& self.ids().len() == self.fetched_flags().len()
        &&& self.ids().no_duplicates()
    }

    /// A snapshot of `chains`, each at height 0.
    pub fn zeroed(chains: Vec<String>) -> (r: Snapshot)
        requires
            chains.deep_view().no_duplicates(),
        ensures
            r.wf(),
            r.ids() == chains.deep_view(),
            forall|i: int| 0 <= i < r.heights().len() ==> #[trigger] r.heights()[i] == 0,
            forall|i: int| 0 <= i < r.fetched_flags().len() ==> !#[trigger] r.fetched_flags()[i],
    {
        let mut heights: Vec<u64> = Vec::new();
        let mut fetched: Vec<bool> = Vec::new();
        let mut k: usize = 0;
        while k < chains.len()
            invariant
                k <= chains.len(),
                heights.len() == k,
                fetched.len() == k,
                forall|i: int| 0 <= i < k ==> #[trigger] heights@[i] == 0,
                forall|i: int| 0 <= i < k ==> !#[trigger] fetched@[i],
            decreases chains.len() - k,
        {
            heights.push(0);
            fetched.push(false);
            k = k + 1;
        }
        Snapshot { chains, heights, fetched }
    }

    /// The number of chains.
    pub fn len(&self) -> (r: usize)
        requires
            self.wf(),
        ensures
            r == self.ids().len(),
    {
        self.chains.len()
    }

    /// The identifier of the chain at position `i`.
    pub fn chain_at(&self, i: usize) -> (r: &String)
        requires
            self.wf(),
            i < self.ids().len(),
        ensures
            r@ == self.ids()[i as int],
    {
        &self.chains[i]
    }

    /// The height of the chain at position `i`.
    pub fn height_at(&self, i: usize) -> (r: u64)
        requires
            self.wf(),
            i < self.ids().len(),
        ensures
            r == self.heights()[i as int],
    {
        self.heights[i]
    }

    /// Whether the chain at position `i` has had a fresh height since startup;
    /// where it has not, its height 0 means "never fetched".
    pub fn fetched_at(&self, i: usize) -> (r: bool)
        requires
            self.wf(),
            i < self.ids().len(),
        ensures
            r == self.fetched_flags()[i as int],
    {
        self.fetched[i]
    }

    /// The height held for `chain`, or `None` where the snapshot has no such chain.
    pub fn get(&self, chain: &str) -> (r: Option<u64>)
        requires
            self.wf(),
        ensures
            r == (if self@.contains_key(chain@) {
                Some(self@[chain@])
            } else {
                None
            }),
    {
        let mut k: usize = 0;
        while k < self.chains.len()
            invariant
                self.wf(),
                k <= self.chains.len(),
                forall|i: int| 0 <= i < k ==> self.ids()[i] != chain@,
            decreases self.chains.len() - k,
        {
            let id: &str = self.chains[k].as_str();
            if crate::text::same_text(id, chain) {
                proof {
                    let j = self.ids().index_of(chain@);
                    assert(self.ids()[k as int] == chain@);
                    assert(self.ids().contains(chain@));
                    assert(self.ids()[j] == chain@);
                    assert(j == k);
                }
                return Some(self.heights[k]);
            }
            k = k + 1;
        }
        None
    }

    /// The snapshot after a cycle: a chain with a fresh height takes it, every
    /// other chain keeps the height it held; a chain counts as fetched once it
    /// has had a fresh height.
    pub fn refreshed(&self, fresh: &Vec<Option<u64>>) -> (r: Snapshot)
        requires
            self.wf(),
            fresh.len() == self.ids().len(),
        ensures
            r.wf(),
            r.ids() == self.ids(),
            forall|i: int|
                0 <= i < r.heights().len() ==> #[trigger] r.heights()[i] == merged(
                    fresh@[i],
                    self.heights()[i],
                ),
            forall|i: int|
                0 <= i < r.fetched_flags().len() ==> #[trigger] r.fetched_flags()[i] == (
                self.fetched_flags()[i] || fresh@[i] is Some),
    {
        let mut heights: Vec<u64> = Vec::new();
        let mut fetched: Vec<bool> = Vec::new();
        let mut k: usize = 0;
        while k < fresh.len()
            invariant
                self.wf(),
                fresh.len() == self.ids().len(),
                k <= fresh.len(),
                heights.len() == k,
                fetched.len() == k,
                forall|i: int|
                    0 <= i < k ==> #[trigger] heights@[i] == merged(fresh@[i], self.heights()[i]),
                forall|i: int|
                    0 <= i < k ==> #[trigger] fetched@[i] == (self.fetched_flags()[i]
                        || fresh@[i] is Some),
            decreases fresh.len() - k,
        {
            let (h, seen): (u64, bool) = match fresh[k] {
                Some(h) => (h, true),
                None => (self.heights[k], self.fetched[k]),
            };
            heights.push(h);
            fetched.push(seen);
            k = k + 1;
        }
        let chains = self.chains.clone();
        Snapshot { chains, heights, fetched }
    }

    /// The pairs of identifier and height, in chain order.
    pub fn entries(&self) -> (r: Vec<(String, u64)>)
        requires
            self.wf(),
        ensures
            r.len() == self.ids().len(),
            forall|i: int|
                0 <= i < r.len() ==> (#[trigger] r@[i]).0@ == self.ids()[i] && r@[i].1
                    == self.heights()[i],
    {
        let mut r: Vec<(String, u64)> = Vec::new();
        let mut k: usize = 0;
        while k < self.chains.len()
            invariant
                self.wf(),
                k <= self.chains.len(),
                r.len() == k,
                forall|i: int|
                    0 <= i < k ==> (#[trigger] r@[i]).0@ == self.ids()[i] && r@[i].1
                        == self.heights()[i],
            decreases self.chains.len() - k,
        {
            r.push((self.chains[k].clone(), self.heights[k]));
            k = k + 1;
        }
        r
    }

    /// The pairs of identifier and height, in chain order, where a chain that
    /// has never had a fresh height reads `None` rather than 0.
    pub fn known_entries(&self) -> (r: Vec<(String, Option<u64>)>)
        requires
            self.wf(),
        ensures
            r.len() == self.ids().len(),
            forall|i: int|
                0 <= i < r.len() ==> (#[trigger] r@[i]).0@ == self.ids()[i] && r@[i].1 == (if self.fetched_flags()[i] {
                    Some(self.heights()[i])
                } else {
                    None
                }),
    {
        let mut r: Vec<(String, Option<u64>)> = Vec::new();
        let mut k: usize = 0;
        while k < self.chains.len()
            invariant
                self.wf(),
                k <= self.chains.len(),
                r.len() == k,
                forall|i: int|
                    0 <= i < k ==> (#[trigger] r@[i]).0@ == self.ids()[i] && r@[i].1 == (if self.fetched_flags()[i] {
                        Some(self.heights()[i])
                    } else {
                        None
                    }),
            decreases self.chains.len() - k,
        {
            let h: Option<u64> = if self.fetched[k] {
                Some(self.heights[k])
            } else {
                None
            };
            r.push((self.chains[k].clone(), h));
            k = k + 1;
        }
        r
    }
}

} // verus!
