//! The in-memory backend: the durable store of headers, bodies and state
//! snapshots, the canonical-chain pointer and the finalized pointer, with
//! the auxiliary key/value store and usage reporting.

use vstd::prelude::*;
use crate::types::{
    Account, BackendConfig, BackendError, ChainInfo, Extrinsic, Header, UsageReport,
};
use crate::ledger::{block_hash, state_root, root_spec, block_hash_spec};

verus! {

/// One block as persisted: the header, the body and the post-state where
/// they were supplied, and the justification the block arrived with.
pub struct StoredBlock {
    pub header: Header,
    pub body: Option<Vec<Extrinsic>>,
    pub state: Option<Vec<Account>>,
    pub justification: Option<Vec<u8>>,
}

/// The chain store. `canonical[k]` is the hash of the canonical block at
/// height `k`, up to and including the best block; the finalized block is
/// always on that chain.
pub struct Backend {
    pub blocks: Vec<StoredBlock>,
    pub canonical: Vec<u64>,
    pub best_number: u64,
    pub finalized_number: u64,
    pub aux: Vec<(u64, u64)>,
    pub justifications: Vec<(u64, Vec<u8>)>,
    pub max_weight: u64,
    pub config: BackendConfig,
}

/// Index of the first stored block with the given hash at or after `i`,
/// or -1.
pub open spec fn block_index_from(bs: Seq<StoredBlock>, h: u64, i: int) -> int
    decreases bs.len() - i,
{
    if i < 0 || i >= bs.len() {
        -1
    } else if bs[i].header.hash == h {
        i
    } else {
        block_index_from(bs, h, i + 1)
    }
}

/// Index of the stored block with the given hash, or -1.
pub open spec fn block_index(bs: Seq<StoredBlock>, h: u64) -> int {
    block_index_from(bs, h, 0)
}

pub open spec fn has_hash(bs: Seq<StoredBlock>, h: u64) -> bool {
    block_index(bs, h) >= 0
}

/// Height of the stored block with the given hash (0 when absent).
pub open spec fn number_of(bs: Seq<StoredBlock>, h: u64) -> u64 {
    if has_hash(bs, h) {
        bs[block_index(bs, h)].header.number
    } else {
        0
    }
}

pub open spec fn chain_hash_fuel(bs: Seq<StoredBlock>, h: u64, target: u64, fuel: nat) -> u64
    decreases fuel,
{
    let i = block_index(bs, h);
    if i < 0 || bs[i].header.number <= target || fuel == 0 {
        h
    } else {
        chain_hash_fuel(bs, bs[i].header.parent_hash, target, (fuel - 1) as nat)
    }
}

/// The hash reached from `h` by following parent links down to height
/// `target`; `h` itself when `h` is absent or already at or below `target`.
pub open spec fn chain_hash_at(bs: Seq<StoredBlock>, h: u64, target: u64) -> u64 {
    chain_hash_fuel(
        bs,
        h,
        target,
        if number_of(bs, h) > target {
            (number_of(bs, h) - target) as nat
        } else {
            0
        },
    )
}

/// Index of the first auxiliary entry with the given key at or after `i`,
/// or -1.
pub open spec fn aux_index_from(a: Seq<(u64, u64)>, key: u64, i: int) -> int
    decreases a.len() - i,
{
    if i < 0 || i >= a.len() {
        -1
    } else if a[i].0 == key {
        i
    } else {
        aux_index_from(a, key, i + 1)
    }
}

pub open spec fn aux_index(a: Seq<(u64, u64)>, key: u64) -> int {
    aux_index_from(a, key, 0)
}

/// Value stored under an auxiliary key.
pub open spec fn aux_lookup(a: Seq<(u64, u64)>, key: u64) -> Option<u64> {
    if aux_index(a, key) >= 0 {
        Some(a[aux_index(a, key)].1)
    } else {
        None
    }
}

/// One auxiliary write: `Some` inserts or updates, `None` deletes.
pub open spec fn aux_write_spec(a: Seq<(u64, u64)>, key: u64, val: Option<u64>) -> Seq<(u64, u64)> {
    let i = aux_index(a, key);
    match val {
        Some(v) => if i >= 0 {
            a.update(i, (key, v))
        } else {
            a.push((key, v))
        },
        None => if i >= 0 {
            a.remove(i)
        } else {
            a
        },
    }
}

/// The auxiliary store after a batch of writes, applied in order.
pub open spec fn apply_aux_spec(a: Seq<(u64, u64)>, writes: Seq<(u64, Option<u64>)>) -> Seq<(u64, u64)>
    decreases writes.len(),
{
    if writes.len() == 0 {
        a
    } else {
        aux_write_spec(apply_aux_spec(a, writes.drop_last()), writes.last().0, writes.last().1)
    }
}

impl Backend {
    /// The global invariant: a single genesis at height 0, hashes unique,
    /// every non-genesis block's parent stored one height below it, and a
    /// canonical chain linked from genesis to the best block with the
    /// finalized block on it.
    pub open spec fn wf(&self) -> bool {
        &&& self.blocks@.len() >= 1
        &&& self.blocks@[0].header.number == 0
        &&& forall|i: int|
            0 <= i < self.blocks@.len() && (#[trigger] self.blocks@[i]).header.number == 0 ==> i == 0
        &&& forall|i: int|
            0 <= i < self.blocks@.len() ==> #[trigger] block_index(
                self.blocks@,
                self.blocks@[i].header.hash,
            ) == i
        &&& forall|i: int|
            0 <= i < self.blocks@.len() && self.blocks@[i].header.number > 0 ==> {
                let p = #[trigger] block_index(self.blocks@, self.blocks@[i].header.parent_hash);
                &&& 0 <= p
                &&& self.blocks@[p].header.number + 1 == self.blocks@[i].header.number
            }
        &&& self.canonical@.len() == self.best_number + 1
        &&& self.finalized_number <= self.best_number
        &&& forall|k: int|
            0 <= k < self.canonical@.len() ==> {
                let b = #[trigger] block_index(self.blocks@, self.canonical@[k]);
                &&& 0 <= b
                &&& self.blocks@[b].header.number == k
                &&& (k > 0 ==> self.blocks@[b].header.parent_hash == self.canonical@[k - 1])
            }
        &&& self.canonical@[0] == self.blocks@[0].header.hash
    }

    pub open spec fn genesis_hash(&self) -> u64 {
        self.blocks@[0].header.hash
    }

    pub open spec fn best_hash(&self) -> u64 {
        self.canonical@[self.best_number as int]
    }

    pub open spec fn finalized_hash(&self) -> u64 {
        self.canonical@[self.finalized_number as int]
    }

    /// A fresh backend holding only the genesis block, built over the
    /// given genesis accounts, with the given block weight ceiling.
    pub fn new(config: BackendConfig, max_weight: u64, genesis_accounts: Vec<Account>) -> (b: Backend)
        ensures
            b.wf(),
            b.blocks@.len() == 1,
            b.blocks@[0].header.number == 0,
            b.blocks@[0].header.parent_hash == 0,
            b.blocks@[0].header.state_root == root_spec(genesis_accounts@),
            b.blocks@[0].header.hash == block_hash_spec(0, 0, root_spec(genesis_accounts@), Seq::<Extrinsic>::empty()),
            b.blocks@[0].state == Some(genesis_accounts),
            b.blocks@[0].body matches Some(body) && body@.len() == 0,
            b.best_number == 0,
            b.finalized_number == 0,
            b.canonical@ =~= seq![b.genesis_hash()],
            b.aux@.len() == 0,
            b.justifications@.len() == 0,
            b.max_weight == max_weight,
            b.config == config,
    {
        let root = state_root(&genesis_accounts);
        let no_xts: Vec<Extrinsic> = Vec::new();
        let ghash = block_hash(0, 0, root, &no_xts);
        let genesis = StoredBlock {
            header: Header {
                hash: ghash,
                parent_hash: 0,
                number: 0,
                state_root: root,
                digest: Vec::new(),
            },
            body: Some(no_xts),
            state: Some(genesis_accounts),
            justification: None,
        };
        let mut blocks: Vec<StoredBlock> = Vec::new();
        blocks.push(genesis);
        let mut canonical: Vec<u64> = Vec::new();
        canonical.push(ghash);
        let b = Backend {
            blocks,
            canonical,
            best_number: 0,
            finalized_number: 0,
            aux: Vec::new(),
            justifications: Vec::new(),
            max_weight,
            config,
        };
        proof {
            assert(block_index(b.blocks@, ghash) == 0);
        }
        b
    }

    /// Position of the block with the given hash.
    pub fn find_block(&self, h: u64) -> (r: Option<usize>)
        ensures
            match r {
                Some(i) => block_index(self.blocks@, h) == i && i < self.blocks@.len()
                    && self.blocks@[i as int].header.hash == h,
                None => block_index(self.blocks@, h) == -1,
            },
    {
        let mut i: usize = 0;
        while i < self.blocks.len()
            invariant
                i <= self.blocks@.len(),
                block_index(self.blocks@, h) == block_index_from(self.blocks@, h, i as int),
            decreases self.blocks@.len() - i,
        {
            if self.blocks[i].header.hash == h {
                return Some(i);
            }
            i = i + 1;
        }
        None
    }

    /// Whether a block with the given hash is stored.
    pub fn has_block(&self, h: u64) -> (r: bool)
        ensures
            r == has_hash(self.blocks@, h),
    {
        self.find_block(h).is_some()
    }

    /// The chain's pointers.
    #[verifier::rlimit(50)]
    pub fn chain_info(&self) -> (r: ChainInfo)
        requires
            self.wf(),
        ensures
            r.genesis_hash == self.genesis_hash(),
            r.best_hash == self.best_hash(),
            r.best_number == self.best_number,
            r.finalized_hash == self.finalized_hash(),
            r.finalized_number == self.finalized_number,
    {
        let ln = self.canonical.len();
        ChainInfo {
            genesis_hash: self.blocks[0].header.hash,
            best_hash: self.canonical[ln - 1],
            best_number: self.best_number,
            finalized_hash: self.canonical[self.finalized_number as usize],
            finalized_number: self.finalized_number,
        }
    }

    /// The state snapshot stored for a block: `Err(UnknownBlock)` when the
    /// block is absent, `Err(MissingState)` when it was imported without
    /// state.
    pub fn state_at(&self, h: u64) -> (r: Result<Vec<Account>, BackendError>)
        ensures
            match r {
                Ok(st) => has_hash(self.blocks@, h)
                    && (self.blocks@[block_index(self.blocks@, h)].state matches Some(s) && st@ == s@),
                Err(BackendError::UnknownBlock) => !has_hash(self.blocks@, h),
                Err(BackendError::MissingState) => has_hash(self.blocks@, h)
                    && self.blocks@[block_index(self.blocks@, h)].state is None,
                Err(_) => false,
            },
    {
        match self.find_block(h) {
            None => Err(BackendError::UnknownBlock),
            Some(i) => match &self.blocks[i].state {
                None => Err(BackendError::MissingState),
                Some(st) => Ok(crate::ledger::clone_accounts(st)),
            },
        }
    }

    /// Value stored under an auxiliary key.
    pub fn aux_get(&self, key: u64) -> (r: Option<u64>)
        ensures
            r == aux_lookup(self.aux@, key),
    {
        let mut i: usize = 0;
        while i < self.aux.len()
            invariant
                i <= self.aux@.len(),
                aux_index(self.aux@, key) == aux_index_from(self.aux@, key, i as int),
            decreases self.aux@.len() - i,
        {
            if self.aux[i].0 == key {
                return Some(self.aux[i].1);
            }
            i = i + 1;
        }
        None
    }
    /// How much is stored, for observability. Counts saturate instead of
    /// wrapping.
    pub fn usage_info(&self) -> (r: UsageReport)
        ensures
            r.blocks == self.blocks@.len(),
            r.extrinsics == total_extrinsics(self.blocks@),
            r.state_entries == total_state_entries(self.blocks@),
            r.aux_entries == self.aux@.len(),
    {
        let mut xts: u64 = 0;
        let mut entries: u64 = 0;
        let mut i: usize = 0;
        while i < self.blocks.len()
            invariant
                i <= self.blocks@.len(),
                xts == total_extrinsics(self.blocks@.take(i as int)),
                entries == total_state_entries(self.blocks@.take(i as int)),
            decreases self.blocks@.len() - i,
        {
            let b = &self.blocks[i];
            let add_x: u64 = match &b.body {
                Some(body) => body.len() as u64,
                None => 0,
            };
            let add_s: u64 = match &b.state {
                Some(st) => st.len() as u64,
                None => 0,
            };
            xts = if xts > u64::MAX - add_x { u64::MAX } else { xts + add_x };
            entries = if entries > u64::MAX - add_s { u64::MAX } else { entries + add_s };
            proof {
                assert(self.blocks@.take(i + 1).drop_last() =~= self.blocks@.take(i as int));
                assert(self.blocks@.take(i + 1).last() == self.blocks@[i as int]);
            }
            i = i + 1;
        }
        proof {
            assert(self.blocks@.take(self.blocks@.len() as int) =~= self.blocks@);
        }
        UsageReport {
            blocks: self.blocks.len() as u64,
            extrinsics: xts,
            state_entries: entries,
            aux_entries: self.aux.len() as u64,
        }
    }

    /// Marks the block with the given hash finalized, together with its
    /// ancestry, and records the justification when one is supplied.
    /// Refuses a block that is absent, off the canonical chain, or below
    /// the finalized head; finalizing the finalized head again is a no-op.
    /// The finalized pointer never moves backwards, and on any error the
    /// backend is left exactly as it was.
    pub fn finalize(&mut self, hash: u64, justification: Option<Vec<u8>>) -> (r: Result<(), BackendError>)
        requires
            old(self).wf(),
        ensures
            final(self).wf(),
            final(self).finalized_number >= old(self).finalized_number,
            final(self).blocks@ == old(self).blocks@,
            final(self).canonical@ == old(self).canonical@,
            final(self).best_number == old(self).best_number,
            final(self).aux@ == old(self).aux@,
            final(self).max_weight == old(self).max_weight,
            final(self).config == old(self).config,
            !has_hash(old(self).blocks@, hash) ==> r == Err::<(), BackendError>(BackendError::UnknownBlock)
                && *final(self) == *old(self),
            ({
                let n = number_of(old(self).blocks@, hash);
                &&& (has_hash(old(self).blocks@, hash) && !(n <= old(self).best_number
                    && old(self).canonical@[n as int] == hash)) ==> r == Err::<(), BackendError>(
                    BackendError::NotCanonical,
                ) && *final(self) == *old(self)
                &&& (has_hash(old(self).blocks@, hash) && n <= old(self).best_number
                    && old(self).canonical@[n as int] == hash) ==> {
                    &&& n < old(self).finalized_number ==> r == Err::<(), BackendError>(
                        BackendError::AlreadyFinalized,
                    ) && *final(self) == *old(self)
                    &&& n == old(self).finalized_number ==> r == Ok::<(), BackendError>(())
                        && *final(self) == *old(self)
                    &&& n > old(self).finalized_number ==> {
                        &&& r == Ok::<(), BackendError>(())
                        &&& final(self).finalized_number == n
                        &&& final(self).finalized_hash() == hash
                        &&& final(self).justifications@ == match justification {
                            Some(j) => old(self).justifications@.push((hash, j)),
                            None => old(self).justifications@,
                        }
                    }
                }
            }),
    {
        let iopt = self.find_block(hash);
        match iopt {
            None => Err(BackendError::UnknownBlock),
            Some(i) => {
                let n = self.blocks[i].header.number;
                let ln = self.canonical.len();
                if !(n < ln as u64 && self.canonical[n as usize] == hash) {
                    Err(BackendError::NotCanonical)
                } else if n < self.finalized_number {
                    Err(BackendError::AlreadyFinalized)
                } else if n == self.finalized_number {
                    Ok(())
                } else {
                    self.finalized_number = n;
                    match justification {
                        Some(j) => {
                            self.justifications.push((hash, j));
                        }
                        None => {}
                    }
                    Ok(())
                }
            }
        }
    }
}

/// Appending a block with a fresh hash moves no existing block and indexes
/// the new block at the end.
pub proof fn lemma_block_index_push(bs: Seq<StoredBlock>, nb: StoredBlock, h: u64, i: int)
    requires
        0 <= i <= bs.len(),
    ensures
        block_index_from(bs.push(nb), h, i) == if block_index_from(bs, h, i) >= 0 {
            block_index_from(bs, h, i)
        } else if nb.header.hash == h {
            bs.len() as int
        } else {
            -1
        },
    decreases bs.len() - i,
{
    let bs2 = bs.push(nb);
    if i < bs.len() {
        assert(bs2[i] == bs[i]);
        if bs[i].header.hash != h {
            lemma_block_index_push(bs, nb, h, i + 1);
        }
    } else {
        assert(bs2[i] == nb);
        if nb.header.hash != h {
            assert(block_index_from(bs2, h, i + 1) == -1);
        }
    }
}

/// Replacing a block by one with the same hash leaves every index as it
/// was.
pub proof fn lemma_block_index_update(bs: Seq<StoredBlock>, e: int, nb: StoredBlock, h: u64, i: int)
    requires
        0 <= e < bs.len(),
        bs[e].header.hash == nb.header.hash,
        0 <= i,
    ensures
        block_index_from(bs.update(e, nb), h, i) == block_index_from(bs, h, i),
    decreases bs.len() - i,
{
    if i < bs.len() && bs[i].header.hash != h {
        lemma_block_index_update(bs, e, nb, h, i + 1);
    }
}

/// A found index carries the hash that was looked up.
pub proof fn lemma_block_index_found(bs: Seq<StoredBlock>, h: u64, i: int)
    requires
        0 <= i,
    ensures
        block_index_from(bs, h, i) >= 0 ==> i <= block_index_from(bs, h, i) < bs.len()
            && bs[block_index_from(bs, h, i)].header.hash == h,
        block_index_from(bs, h, i) < 0 ==> block_index_from(bs, h, i) == -1,
    decreases bs.len() - i,
{
    if i < bs.len() && bs[i].header.hash != h {
        lemma_block_index_found(bs, h, i + 1);
    }
}

/// One step down the ancestry: the chain hash from a block equals the
/// chain hash from its parent, as long as the target lies below the block.
pub proof fn lemma_chain_step(bs: Seq<StoredBlock>, h: u64, target: u64)
    requires
        block_index(bs, h) >= 0,
        bs[block_index(bs, h)].header.number > target,
        block_index(bs, bs[block_index(bs, h)].header.parent_hash) >= 0,
        bs[block_index(bs, bs[block_index(bs, h)].header.parent_hash)].header.number + 1
            == bs[block_index(bs, h)].header.number,
    ensures
        chain_hash_at(bs, h, target) == chain_hash_at(
            bs,
            bs[block_index(bs, h)].header.parent_hash,
            target,
        ),
{
    let n = bs[block_index(bs, h)].header.number;
    let p = bs[block_index(bs, h)].header.parent_hash;
    let fuel = (n - target) as nat;
    assert(number_of(bs, h) == n);
    assert(number_of(bs, p) == n - 1);
    assert(chain_hash_at(bs, h, target) == chain_hash_fuel(bs, h, target, fuel));
    assert(chain_hash_fuel(bs, h, target, fuel) == chain_hash_fuel(bs, p, target, (fuel - 1) as nat));
    if n - 1 > target {
        assert(chain_hash_at(bs, p, target) == chain_hash_fuel(bs, p, target, (n - 1 - target) as nat));
    } else {
        assert(chain_hash_fuel(bs, p, target, 0) == p);
        assert(chain_hash_at(bs, p, target) == p);
    }
}

impl Backend {
    /// Every block of the canonical chain reaches, by parent links, the
    /// canonical block at each height below it.
    pub proof fn lemma_canonical_chain(&self, k: u64, j: u64)
        requires
            self.wf(),
            j <= k <= self.best_number,
        ensures
            chain_hash_at(self.blocks@, self.canonical@[k as int], j) == self.canonical@[j as int],
        decreases k - j,
    {
        let bs = self.blocks@;
        let ck = self.canonical@[k as int];
        let b = block_index(bs, ck);
        assert(b >= 0 && bs[b].header.number == k);
        if k == j {
            assert(chain_hash_at(bs, ck, j) == ck);
        } else {
            let pk = self.canonical@[k - 1];
            assert(bs[b].header.parent_hash == pk);
            let pb = block_index(bs, pk);
            assert(pb >= 0 && bs[pb].header.number == k - 1);
            lemma_chain_step(bs, ck, j);
            self.lemma_canonical_chain((k - 1) as u64, j);
        }
    }

    /// Walks from a stored block down its ancestry to the point where it
    /// meets the canonical chain. Returns the meeting height and the
    /// hashes strictly above it, in ascending height order.
    pub(crate) fn canonical_meet(&self, start: u64) -> (res: (u64, Vec<u64>))
        requires
            self.wf(),
            has_hash(self.blocks@, start),
        ensures
            ({
                let k = res.0;
                let path = res.1@;
                let n = number_of(self.blocks@, start);
                &&& k <= n
                &&& k <= self.best_number
                &&& path.len() == n - k
                &&& (forall|t: u64|
                    t <= k ==> #[trigger] chain_hash_at(self.blocks@, start, t)
                        == self.canonical@[t as int])
                &&& (forall|m: int|
                    0 <= m < path.len() ==> #[trigger] path[m] == chain_hash_at(
                        self.blocks@,
                        start,
                        (k + 1 + m) as u64,
                    ))
                &&& (forall|m: int|
                    0 <= m < path.len() ==> {
                        let b = block_index(self.blocks@, #[trigger] path[m]);
                        &&& b >= 0
                        &&& self.blocks@[b].header.number == k + 1 + m
                        &&& self.blocks@[b].header.parent_hash == (if m == 0 {
                            self.canonical@[k as int]
                        } else {
                            path[m - 1]
                        })
                    })
                &&& (path.len() > 0 ==> path[path.len() - 1] == start)
                &&& (path.len() == 0 ==> start == self.canonical@[k as int])
                &&& (forall|m: int|
                    0 <= m < path.len() && k + 1 + m <= self.best_number
                        ==> #[trigger] path[m] != self.canonical@[k + 1 + m])
            }),
    {
        let ghost n0 = number_of(self.blocks@, start);
        let mut cur: u64 = start;
        let mut path: Vec<u64> = Vec::new();
        loop
            invariant
                self.wf(),
                has_hash(self.blocks@, cur),
                number_of(self.blocks@, cur) <= n0,
                n0 == number_of(self.blocks@, start),
                path@.len() == n0 - number_of(self.blocks@, cur),
                path@.len() == 0 ==> cur == start,
                path@.len() > 0 ==> path@[path@.len() - 1] == start,
                forall|t: u64|
                    t <= number_of(self.blocks@, cur) ==> #[trigger] chain_hash_at(
                        self.blocks@,
                        start,
                        t,
                    ) == chain_hash_at(self.blocks@, cur, t),
                forall|m: int|
                    0 <= m < path@.len() ==> #[trigger] path@[m] == chain_hash_at(
                        self.blocks@,
                        start,
                        (number_of(self.blocks@, cur) + 1 + m) as u64,
                    ),
                forall|m: int|
                    0 <= m < path@.len() ==> {
                        let b = block_index(self.blocks@, #[trigger] path@[m]);
                        &&& b >= 0
                        &&& self.blocks@[b].header.number == number_of(self.blocks@, cur) + 1 + m
                        &&& self.blocks@[b].header.parent_hash == (if m == 0 {
                            cur
                        } else {
                            path@[m - 1]
                        })
                    },
                forall|m: int|
                    0 <= m < path@.len() && number_of(self.blocks@, cur) + 1 + m
                        <= self.best_number ==> #[trigger] path@[m] != self.canonical@[
                        number_of(self.blocks@, cur) + 1 + m
                    ],
            decreases number_of(self.blocks@, cur),
        {
            let iopt = self.find_block(cur);
            let i = match iopt {
                Some(i) => i,
                None => {
                    proof {
                        assert(false);
                    }
                    return (0, Vec::new());
                }
            };
            let cn = self.blocks[i].header.number;
            let ln = self.canonical.len();
            if cn < ln as u64 && self.canonical[cn as usize] == cur {
                proof {
                    assert(chain_hash_at(self.blocks@, cur, cn) == cur);
                    assert forall|t: u64| t <= cn implies #[trigger] chain_hash_at(
                        self.blocks@,
                        start,
                        t,
                    ) == self.canonical@[t as int] by {
                        assert(chain_hash_at(self.blocks@, start, t) == chain_hash_at(
                            self.blocks@,
                            cur,
                            t,
                        ));
                        self.lemma_canonical_chain(cn, t);
                    }
                }
                return (cn, path);
            }
            proof {
                if cn == 0 {
                    assert(i == 0);
                    assert(self.canonical@[0] == self.blocks@[0].header.hash);
                    assert(false);
                }
            }
            let parent = self.blocks[i].header.parent_hash;
            proof {
                assert(block_index(self.blocks@, self.blocks@[i as int].header.parent_hash) >= 0);
                assert(chain_hash_at(self.blocks@, cur, cn) == cur);
                assert forall|t: u64| t <= cn - 1 implies #[trigger] chain_hash_at(
                    self.blocks@,
                    cur,
                    t,
                ) == chain_hash_at(self.blocks@, parent, t) by {
                    lemma_chain_step(self.blocks@, cur, t);
                }
            }
            path.insert(0, cur);
            cur = parent;
        }
    }
}

impl Backend {
    /// Finalization is irreversible: in every well-formed backend the
    /// finalized block sits on the canonical chain at its own height, at
    /// or below the best block, so no competing block at that height can
    /// ever become canonical.
    pub proof fn lemma_finalized_on_canonical_chain(&self)
        requires
            self.wf(),
        ensures
            self.finalized_number <= self.best_number,
            self.canonical@[self.finalized_number as int] == self.finalized_hash(),
            has_hash(self.blocks@, self.finalized_hash()),
            number_of(self.blocks@, self.finalized_hash()) == self.finalized_number,
            chain_hash_at(self.blocks@, self.best_hash(), self.finalized_number)
                == self.finalized_hash(),
    {
        let fh = self.canonical@[self.finalized_number as int];
        assert(block_index(self.blocks@, fh) >= 0);
        self.lemma_canonical_chain(self.best_number, self.finalized_number);
    }
}

/// A length clipped to what a `u64` can report.
pub open spec fn len_as_u64(n: nat) -> u64 {
    if n > u64::MAX {
        u64::MAX
    } else {
        n as u64
    }
}

/// Addition that saturates at `u64::MAX`.
pub open spec fn sat_add(a: u64, b: u64) -> u64 {
    if a + b > u64::MAX {
        u64::MAX
    } else {
        (a + b) as u64
    }
}

/// Total number of extrinsics across all stored bodies.
pub open spec fn total_extrinsics(bs: Seq<StoredBlock>) -> u64
    decreases bs.len(),
{
    if bs.len() == 0 {
        0
    } else {
        sat_add(
            total_extrinsics(bs.drop_last()),
            match bs.last().body {
                Some(body) => len_as_u64(body@.len()),
                None => 0,
            },
        )
    }
}

/// Total number of accounts across all stored state snapshots.
pub open spec fn total_state_entries(bs: Seq<StoredBlock>) -> u64
    decreases bs.len(),
{
    if bs.len() == 0 {
        0
    } else {
        sat_add(
            total_state_entries(bs.drop_last()),
            match bs.last().state {
                Some(st) => len_as_u64(st@.len()),
                None => 0,
            },
        )
    }
}

} // verus!
