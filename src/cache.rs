//! The height cache: the configured chains, their endpoints, and one
//! snapshot of heights per network class.

use vstd::prelude::*;
use crate::chain::{NetworkType, SupportedChains, classify, family_of};
use crate::fetch::{fetch_kind, kind_of};
use crate::resolve::{ChainResolver, first_success, height_after, lemma_all_fail_keeps_height, lemma_first_success_wins};
use crate::snapshot::{Snapshot, merged};
use crate::models::Network;
use crate::text::same_text;

verus! {

/// One configured chain: its identifier, its class, and its endpoints in
/// the order they are tried.
#[derive(Clone, Debug)]
pub struct ChainConfig {
    pub identifier: String,
    pub network_type: NetworkType,
    pub rpcs: Vec<String>,
}

/// Why a configuration is refused.
#[derive(Clone, Debug)]
pub enum ConfigError {
    /// The entry at `index` lists no endpoint.
    EmptyEndpoints { index: usize, identifier: String },
    /// The entry at `index` repeats the identifier of an earlier entry.
    DuplicateIdentifier { index: usize, identifier: String },
}

/// The identifiers of `cfg`, in order.
pub open spec fn config_ids(cfg: Seq<ChainConfig>) -> Seq<Seq<char>> {
    Seq::new(cfg.len(), |i: int| cfg[i].identifier@)
}

/// The identifiers of the entries of `cfg` in class `class`, in order.
pub open spec fn class_ids(cfg: Seq<ChainConfig>, class: NetworkType) -> Seq<Seq<char>>
    decreases cfg.len(),
{
    if cfg.len() == 0 {
        Seq::empty()
    } else if cfg.last().network_type == class {
        class_ids(cfg.drop_last(), class).push(cfg.last().identifier@)
    } else {
        class_ids(cfg.drop_last(), class)
    }
}

/// The entry at `i` lists no endpoint, or repeats an earlier identifier.
pub open spec fn entry_faulty(cfg: Seq<ChainConfig>, i: int) -> bool {
    cfg[i].rpcs.len() == 0 || exists|j: int| 0 <= j < i && cfg[j].identifier@ == cfg[i].identifier@
}

/// No entry of `cfg` is faulty.
pub open spec fn config_valid(cfg: Seq<ChainConfig>) -> bool {
    forall|i: int| 0 <= i < cfg.len() ==> !entry_faulty(cfg, i)
}

/// The endpoints configured for the chain `id`.
pub open spec fn endpoints_of(cfg: Seq<ChainConfig>, id: Seq<char>) -> Seq<Seq<char>> {
    cfg[config_ids(cfg).index_of(id)].rpcs.deep_view()
}

/// The configured chains with their endpoints, and the latest snapshot of
/// each network class.
pub struct BlockNumbers {
    rpcs: Vec<ChainConfig>,
    mainnet: Snapshot,
    testnet: Snapshot,
    localnet: Snapshot,
}

impl BlockNumbers {
    /// The configuration the cache was built from.
    pub closed spec fn config(&self) -> Seq<ChainConfig> {
        self.rpcs@
    }

    /// The snapshot of class `class`.
    pub closed spec fn snapshot_of(&self, class: NetworkType) -> Snapshot {
        match class {
            NetworkType::MAINNET => self.mainnet,
            NetworkType::TESTNET => self.testnet,
            NetworkType::LOCALNET => self.localnet,
        }
    }

    /// The configuration is valid, and each class's snapshot holds exactly the
    /// chains configured in that class, in configuration order.
    pub open spec fn wf(&self) -> bool {
        &&& config_valid(self.config())
        &&& forall|c: NetworkType|
            (#[trigger] self.snapshot_of(c)).wf() && self.snapshot_of(c).ids() == class_ids(
                self.config(),
                c,
            )
    }

    /// Builds the cache from the configuration `entries`: every chain starts at
    /// height 0 in the snapshot of its class. A configuration in which an entry
    /// lists no endpoint, or repeats an earlier identifier, is refused, and the
    /// error names the first such entry.
    pub fn new(entries: Vec<ChainConfig>) -> (r: Result<BlockNumbers, ConfigError>)
        ensures
            match r {
                Ok(b) => {
                    &&& config_valid(entries@)
                    &&& b.wf()
                    &&& b.config() == entries@
                    &&& forall|c: NetworkType, i: int|
                        0 <= i < b.snapshot_of(c).heights().len() ==> #[trigger] b.snapshot_of(
                            c,
                        ).heights()[i] == 0
                    &&& forall|c: NetworkType, i: int|
                        0 <= i < b.snapshot_of(c).fetched_flags().len() ==> !#[trigger] b.snapshot_of(
                            c,
                        ).fetched_flags()[i]
                },
                Err(e) => !config_valid(entries@) && describes_fault(entries@, e),
            },
    {
        let mut seen: Vec<String> = Vec::new();
        let mut main_ids: Vec<String> = Vec::new();
        let mut test_ids: Vec<String> = Vec::new();
        let mut local_ids: Vec<String> = Vec::new();
        let mut i: usize = 0;
        assert(entries@.take(0) =~= Seq::<ChainConfig>::empty());
        assert(config_ids(entries@.take(0)) =~= Seq::<Seq<char>>::empty());
        while i < entries.len()
            invariant
                i <= entries.len(),
                config_valid(entries@.take(i as int)),
                seen.deep_view() == config_ids(entries@.take(i as int)),
                main_ids.deep_view() == class_ids(entries@.take(i as int), NetworkType::MAINNET),
                test_ids.deep_view() == class_ids(entries@.take(i as int), NetworkType::TESTNET),
                local_ids.deep_view() == class_ids(entries@.take(i as int), NetworkType::LOCALNET),
            decreases entries.len() - i,
        {
            let ghost cfg = entries@;
            let ghost before = cfg.take(i as int);
            let ghost after = cfg.take(i + 1);
            proof {
                assert forall|j: int| 0 <= j < i implies !entry_faulty(cfg, j) by {
                    lemma_fault_prefix(cfg, i as int, j);
                    assert(!entry_faulty(before, j));
                }
            }
            assert(seen.deep_view().len() == seen.len());
            let e = &entries[i];
            if e.rpcs.len() == 0 {
                assert(entry_faulty(cfg, i as int));
                assert(first_fault(cfg, i as int));
                return Err(
                    ConfigError::EmptyEndpoints { index: i, identifier: e.identifier.clone() },
                );
            }
            let mut j: usize = 0;
            while j < seen.len()
                invariant
                    j <= seen.len(),
                    seen.deep_view() == config_ids(before),
                    before == cfg.take(i as int),
                    e == cfg[i as int],
                    i < cfg.len(),
                    seen.len() == i,
                    cfg == entries@,
                    cfg[i as int].rpcs.len() > 0,
                    forall|m: int| 0 <= m < i ==> !entry_faulty(cfg, m),
                    forall|m: int| 0 <= m < j ==> cfg[m].identifier@ != e.identifier@,
                decreases seen.len() - j,
            {
                if same_text(seen[j].as_str(), e.identifier.as_str()) {
                    proof {
                        assert(seen.deep_view()[j as int] == seen@[j as int]@);
                        assert(before[j as int] == cfg[j as int]);
                        assert(config_ids(before)[j as int] == cfg[j as int].identifier@);
                        assert(entry_faulty(cfg, i as int));
                        assert(first_fault(cfg, i as int));
                    }
                    return Err(
                        ConfigError::DuplicateIdentifier {
                            index: i,
                            identifier: e.identifier.clone(),
                        },
                    );
                }
                proof {
                    assert(seen.deep_view()[j as int] == seen@[j as int]@);
                    assert(before[j as int] == cfg[j as int]);
                    assert(config_ids(before)[j as int] == cfg[j as int].identifier@);
                }
                j = j + 1;
            }
            proof {
                assert(!entry_faulty(cfg, i as int));
                assert(after.drop_last() =~= before);
                assert(after.last() == cfg[i as int]);
                assert forall|m: int| 0 <= m <= i implies !entry_faulty(after, m) by {
                    lemma_fault_prefix(cfg, i + 1, m);
                }
                assert(config_ids(after) =~= config_ids(before).push(e.identifier@));
            }
            seen.push(e.identifier.clone());
            match e.network_type {
                NetworkType::MAINNET => main_ids.push(e.identifier.clone()),
                NetworkType::TESTNET => test_ids.push(e.identifier.clone()),
                NetworkType::LOCALNET => local_ids.push(e.identifier.clone()),
            }
            proof {
                assert(seen.deep_view() =~= config_ids(after));
                assert(main_ids.deep_view() =~= class_ids(after, NetworkType::MAINNET));
                assert(test_ids.deep_view() =~= class_ids(after, NetworkType::TESTNET));
                assert(local_ids.deep_view() =~= class_ids(after, NetworkType::LOCALNET));
            }
            i = i + 1;
        }
        proof {
            assert(entries@.take(i as int) =~= entries@);
            lemma_valid_ids_unique(entries@);
            lemma_class_ids_within(entries@, NetworkType::MAINNET);
            lemma_class_ids_within(entries@, NetworkType::TESTNET);
            lemma_class_ids_within(entries@, NetworkType::LOCALNET);
        }
        let b = BlockNumbers {
            rpcs: entries,
            mainnet: Snapshot::zeroed(main_ids),
            testnet: Snapshot::zeroed(test_ids),
            localnet: Snapshot::zeroed(local_ids),
        };
        assert forall|c: NetworkType|
            (#[trigger] b.snapshot_of(c)).wf() && b.snapshot_of(c).ids() == class_ids(b.config(), c)
            by {
            match c {
                NetworkType::MAINNET => {},
                NetworkType::TESTNET => {},
                NetworkType::LOCALNET => {},
            }
        }
        Ok(b)
    }

    /// The snapshot of class `class`: every chain configured in that class with
    /// its latest height.
    pub fn get_snapshot(&self, class: NetworkType) -> (r: &Snapshot)
        ensures
            r == self.snapshot_of(class),
    {
        match class {
            NetworkType::MAINNET => &self.mainnet,
            NetworkType::TESTNET => &self.testnet,
            NetworkType::LOCALNET => &self.localnet,
        }
    }

    /// The snapshots of the three classes: mainnet, testnet, localnet.
    pub fn get_all_snapshots(&self) -> (r: (&Snapshot, &Snapshot, &Snapshot))
        ensures
            r.0 == self.snapshot_of(NetworkType::MAINNET),
            r.1 == self.snapshot_of(NetworkType::TESTNET),
            r.2 == self.snapshot_of(NetworkType::LOCALNET),
    {
        (&self.mainnet, &self.testnet, &self.localnet)
    }

    /// The endpoints configured for `chain`, in the order they are tried, or
    /// `None` where no such chain is configured.
    pub fn endpoints_for(&self, chain: &str) -> (r: Option<&Vec<String>>)
        requires
            self.wf(),
        ensures
            match r {
                Some(v) => config_ids(self.config()).contains(chain@) && v.deep_view()
                    == endpoints_of(self.config(), chain@),
                None => !config_ids(self.config()).contains(chain@),
            },
    {
        proof {
            lemma_valid_ids_unique(self.config());
        }
        let ghost ids = config_ids(self.config());
        let mut k: usize = 0;
        while k < self.rpcs.len()
            invariant
                self.wf(),
                ids == config_ids(self.config()),
                ids.no_duplicates(),
                k <= self.rpcs.len(),
                forall|m: int| 0 <= m < k ==> ids[m] != chain@,
            decreases self.rpcs.len() - k,
        {
            assert(ids[k as int] == self.rpcs@[k as int].identifier@);
            if same_text(self.rpcs[k].identifier.as_str(), chain) {
                proof {
                    assert(ids.contains(chain@));
                    let j = ids.index_of(chain@);
                    assert(ids[j] == chain@);
                }
                return Some(&self.rpcs[k].rpcs);
            }
            k = k + 1;
        }
        proof {
            if ids.contains(chain@) {
                let j = ids.index_of(chain@);
                assert(ids[j] == chain@);
            }
        }
        None
    }

    /// The protocol family of `chain`.
    pub fn get_chain_type(&self, chain: &str) -> (r: SupportedChains)
        ensures
            r == family_of(chain@),
    {
        classify(chain)
    }

    /// Starts this cycle's resolution of the chain at position `i` of class
    /// `class`: over that chain's endpoints, in configured order, with the
    /// request its family and class call for.
    pub fn resolver(&self, class: NetworkType, i: usize) -> (r: ChainResolver)
        requires
            self.wf(),
            i < self.snapshot_of(class).ids().len(),
        ensures
            r.wf(),
            r.attempts() == Seq::<Option<u64>>::empty(),
            r.endpoint_list() == endpoints_of(self.config(), self.snapshot_of(class).ids()[i as int]),
            r.fetch_kind() == kind_of(family_of(self.snapshot_of(class).ids()[i as int]), class),
    {
        let snap = self.get_snapshot(class);
        assert(snap.wf());
        let id: &str = snap.chain_at(i).as_str();
        proof {
            lemma_class_ids_within(self.config(), class);
            assert(class_ids(self.config(), class).contains(id@));
        }
        let kind = fetch_kind(classify(id), class);
        match self.endpoints_for(id) {
            Some(v) => ChainResolver::new(v.clone(), kind),
            None => {
                proof {
                    assert(false);
                }
                ChainResolver::new(Vec::new(), kind)
            },
        }
    }

    /// Replaces the snapshot of class `class` as a whole with the heights of
    /// this cycle: a chain with a fresh height (`fresh` in chain order) takes
    /// it, every other chain keeps the height it held. The other classes are
    /// left as they were.
    pub fn update_block_numbers(&mut self, class: NetworkType, fresh: &Vec<Option<u64>>)
        requires
            old(self).wf(),
            fresh.len() == old(self).snapshot_of(class).ids().len(),
        ensures
            cycle_step(*old(self), *final(self), class, fresh@),
    {
        let ghost before = *self;
        let next = self.get_snapshot(class).refreshed(fresh);
        match class {
            NetworkType::MAINNET => self.mainnet = next,
            NetworkType::TESTNET => self.testnet = next,
            NetworkType::LOCALNET => self.localnet = next,
        }
        assert forall|c: NetworkType|
            (#[trigger] self.snapshot_of(c)).wf() && self.snapshot_of(c).ids() == class_ids(
                self.config(),
                c,
            ) by {
            assert(before.snapshot_of(c).wf());
            match c {
                NetworkType::MAINNET => {},
                NetworkType::TESTNET => {},
                NetworkType::LOCALNET => {},
            }
        }
    }
}

/// `after` is `before` once class `class` has been refreshed with the fresh
/// heights `fresh`, in chain order: the class's snapshot is replaced as a
/// whole, a chain with a fresh height takes it and every other chain keeps
/// the height it held, and nothing else changes.
pub open spec fn cycle_step(
    before: BlockNumbers,
    after: BlockNumbers,
    class: NetworkType,
    fresh: Seq<Option<u64>>,
) -> bool {
    &&& after.wf()
    &&& after.config() == before.config()
    &&& after.snapshot_of(class).ids() == before.snapshot_of(class).ids()
    &&& forall|i: int|
        0 <= i < fresh.len() ==> #[trigger] after.snapshot_of(class).heights()[i] == merged(
            fresh[i],
            before.snapshot_of(class).heights()[i],
        )
    &&& forall|i: int|
        0 <= i < fresh.len() ==> #[trigger] after.snapshot_of(class).fetched_flags()[i] == (
        before.snapshot_of(class).fetched_flags()[i] || fresh[i] is Some)
    &&& forall|c: NetworkType| c != class ==> #[trigger] after.snapshot_of(c) == before.snapshot_of(c)
}

/// A refresh cycle neither adds, removes nor moves a chain: every class keeps
/// its chains, and every configured chain is still present in its class.
pub proof fn lemma_cycle_keeps_chains(
    before: &BlockNumbers,
    after: &BlockNumbers,
    class: NetworkType,
    fresh: Seq<Option<u64>>,
    i: int,
)
    requires
        before.wf(),
        cycle_step(*before, *after, class, fresh),
        0 <= i < after.config().len(),
    ensures
        forall|c: NetworkType| #[trigger] after.snapshot_of(c).ids() == before.snapshot_of(c).ids(),
        after.snapshot_of(after.config()[i].network_type)@.contains_key(after.config()[i].identifier@),
{
    assert forall|c: NetworkType| #[trigger] after.snapshot_of(c).ids() == before.snapshot_of(c).ids() by {
        if c != class {
            assert(after.snapshot_of(c) == before.snapshot_of(c));
        }
    }
    lemma_configured_chain_present(after, i);
}

/// If every endpoint of the chain at position `i` failed in a cycle, its
/// height after the cycle is the height it held before.
pub proof fn lemma_cycle_all_fail(
    before: &BlockNumbers,
    after: &BlockNumbers,
    class: NetworkType,
    fresh: Seq<Option<u64>>,
    i: int,
    attempts: Seq<Option<u64>>,
)
    requires
        cycle_step(*before, *after, class, fresh),
        0 <= i < fresh.len(),
        fresh[i] == first_success(attempts),
        forall|j: int| 0 <= j < attempts.len() ==> (#[trigger] attempts[j]) is None,
    ensures
        after.snapshot_of(class).heights()[i] == before.snapshot_of(class).heights()[i],
{
    lemma_all_fail_keeps_height(attempts, before.snapshot_of(class).heights()[i]);
    assert(after.snapshot_of(class).heights()[i] == merged(fresh[i], before.snapshot_of(class).heights()[i]));
}

/// If some endpoint of the chain at position `i` succeeded in a cycle, its
/// height after the cycle is the one reported by the first endpoint, in list
/// order, that succeeded, whether above or below the height it held.
pub proof fn lemma_cycle_first_success(
    before: &BlockNumbers,
    after: &BlockNumbers,
    class: NetworkType,
    fresh: Seq<Option<u64>>,
    i: int,
    attempts: Seq<Option<u64>>,
    j: int,
)
    requires
        cycle_step(*before, *after, class, fresh),
        0 <= i < fresh.len(),
        fresh[i] == first_success(attempts),
        0 <= j < attempts.len(),
        attempts[j] is Some,
        forall|m: int| 0 <= m < j ==> (#[trigger] attempts[m]) is None,
    ensures
        after.snapshot_of(class).heights()[i] == attempts[j]->0,
{
    let previous = before.snapshot_of(class).heights()[i];
    lemma_first_success_wins(attempts, previous, j);
    assert(after.snapshot_of(class).heights()[i] == merged(fresh[i], previous));
    assert(height_after(attempts, previous) == merged(first_success(attempts), previous));
}

/// The chain entry of each configured network: its identifier, class and
/// endpoints, in configuration order.
pub fn chain_configs(config: &Vec<(String, Network)>) -> (r: Vec<ChainConfig>)
    ensures
        r.len() == config.len(),
        forall|i: int|
            0 <= i < r.len() ==> {
                &&& (#[trigger] r@[i]).identifier@ == config@[i].0@
                &&& r@[i].network_type == config@[i].1.network_type
                &&& r@[i].rpcs.deep_view() == config@[i].1.rpcs.deep_view()
            },
{
    let mut r: Vec<ChainConfig> = Vec::new();
    let mut k: usize = 0;
    while k < config.len()
        invariant
            k <= config.len(),
            r.len() == k,
            forall|i: int|
                0 <= i < k ==> {
                    &&& (#[trigger] r@[i]).identifier@ == config@[i].0@
                    &&& r@[i].network_type == config@[i].1.network_type
                    &&& r@[i].rpcs.deep_view() == config@[i].1.rpcs.deep_view()
                },
        decreases config.len() - k,
    {
        let (identifier, network) = &config[k];
        r.push(
            ChainConfig {
                identifier: identifier.clone(),
                network_type: network.network_type,
                rpcs: network.rpcs.clone(),
            },
        );
        k = k + 1;
    }
    r
}

/// Every configured chain is present in the snapshot of its class, for as
/// long as the cache is well formed: from construction on, through every
/// replacement.
pub proof fn lemma_configured_chain_present(b: &BlockNumbers, i: int)
    requires
        b.wf(),
        0 <= i < b.config().len(),
    ensures
        b.snapshot_of(b.config()[i].network_type)@.contains_key(b.config()[i].identifier@),
{
    lemma_entry_in_class(b.config(), i);
    let c = b.config()[i].network_type;
    assert(b.snapshot_of(c).wf());
}

/// The entry at `i` is the first faulty entry of `cfg`.
pub open spec fn first_fault(cfg: Seq<ChainConfig>, i: int) -> bool {
    &&& 0 <= i < cfg.len()
    &&& entry_faulty(cfg, i)
    &&& forall|j: int| 0 <= j < i ==> !entry_faulty(cfg, j)
}

/// `e` names the first faulty entry of `cfg` and what is wrong with it.
pub open spec fn describes_fault(cfg: Seq<ChainConfig>, e: ConfigError) -> bool {
    match e {
        ConfigError::EmptyEndpoints { index, identifier } => {
            &&& first_fault(cfg, index as int)
            &&& cfg[index as int].rpcs.len() == 0
            &&& identifier@ == cfg[index as int].identifier@
        },
        ConfigError::DuplicateIdentifier { index, identifier } => {
            &&& first_fault(cfg, index as int)
            &&& cfg[index as int].rpcs.len() > 0
            &&& identifier@ == cfg[index as int].identifier@
        },
    }
}

/// A valid configuration names no chain twice.
proof fn lemma_valid_ids_unique(cfg: Seq<ChainConfig>)
    requires
        config_valid(cfg),
    ensures
        config_ids(cfg).no_duplicates(),
{
    let ids = config_ids(cfg);
    assert forall|i: int, j: int| 0 <= i < ids.len() && 0 <= j < ids.len() && i != j implies ids[i]
        != ids[j] by {
        if i < j {
            assert(!entry_faulty(cfg, j));
        } else {
            assert(!entry_faulty(cfg, i));
        }
    }
}

/// The chains of one class are configured chains, and name no chain twice
/// where the configuration names none twice.
proof fn lemma_class_ids_within(cfg: Seq<ChainConfig>, class: NetworkType)
    ensures
        forall|k: Seq<char>| #[trigger] class_ids(cfg, class).contains(k) ==> config_ids(cfg).contains(k),
        config_ids(cfg).no_duplicates() ==> class_ids(cfg, class).no_duplicates(),
    decreases cfg.len(),
{
    if cfg.len() > 0 {
        let init = cfg.drop_last();
        lemma_class_ids_within(init, class);
        let ids = config_ids(cfg);
        assert(config_ids(init) =~= ids.drop_last());
        assert forall|k: Seq<char>| #[trigger] class_ids(cfg, class).contains(k) implies ids.contains(k) by {
            if class_ids(init, class).contains(k) {
                let j = config_ids(init).index_of(k);
                assert(ids[j] == k);
            } else {
                assert(ids[cfg.len() - 1] == k);
            }
        }
        if ids.no_duplicates() {
            assert(config_ids(init).no_duplicates()) by {
                assert forall|i: int, j: int|
                    0 <= i < config_ids(init).len() && 0 <= j < config_ids(init).len() && i != j
                    implies config_ids(init)[i] != config_ids(init)[j] by {
                    assert(config_ids(init)[i] == ids[i] && config_ids(init)[j] == ids[j]);
                }
            }
            let ci = class_ids(init, class);
            if cfg.last().network_type == class {
                let last = cfg.last().identifier@;
                assert(!ci.contains(last)) by {
                    if ci.contains(last) {
                        let j = config_ids(init).index_of(last);
                        assert(ids[j] == ids[cfg.len() - 1]);
                    }
                }
                let full = ci.push(last);
                assert(class_ids(cfg, class) == full);
                assert forall|i: int, j: int| 0 <= i < full.len() && 0 <= j < full.len() && i != j
                    implies full[i] != full[j] by {
                    if i < ci.len() && j < ci.len() {
                        assert(full[i] == ci[i] && full[j] == ci[j]);
                    } else if i < ci.len() {
                        assert(full[i] == ci[i]);
                        assert(ci.contains(full[i]));
                    } else if j < ci.len() {
                        assert(full[j] == ci[j]);
                        assert(ci.contains(full[j]));
                    }
                }
            }
        }
    } else {
        assert(class_ids(cfg, class) =~= Seq::<Seq<char>>::empty());
    }
}

/// Every configured chain stands among the chains of its own class.
proof fn lemma_entry_in_class(cfg: Seq<ChainConfig>, i: int)
    requires
        0 <= i < cfg.len(),
    ensures
        class_ids(cfg, cfg[i].network_type).contains(cfg[i].identifier@),
    decreases cfg.len(),
{
    let c = cfg[i].network_type;
    if i == cfg.len() - 1 {
        let ids = class_ids(cfg, c);
        assert(ids[ids.len() - 1] == cfg[i].identifier@);
    } else {
        let init = cfg.drop_last();
        assert(init[i] == cfg[i]);
        lemma_entry_in_class(init, i);
        let j = class_ids(init, c).index_of(cfg[i].identifier@);
        assert(class_ids(cfg, c)[j] == cfg[i].identifier@);
    }
}

/// Whether a fault is local to the first `i` entries.
proof fn lemma_fault_prefix(cfg: Seq<ChainConfig>, i: int, j: int)
    requires
        0 <= j < i <= cfg.len(),
    ensures
        entry_faulty(cfg.take(i), j) == entry_faulty(cfg, j),
{
    let p = cfg.take(i);
    assert(p[j] == cfg[j]);
    assert forall|m: int| 0 <= m < j implies p[m] == cfg[m] by {}
    if entry_faulty(cfg, j) && cfg[j].rpcs.len() > 0 {
        let m = choose|m: int| 0 <= m < j && cfg[m].identifier@ == cfg[j].identifier@;
        assert(p[m].identifier@ == p[j].identifier@);
    }
}

} // verus!
