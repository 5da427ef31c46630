//! The test-harness configuration and deterministic block generation:
//! the fixed runtime parameters, a fresh backend provisioned from an
//! authority set, and a block filled with the mandatory inherents and
//! deterministic transfers up to the weight ceiling.

use vstd::prelude::*;
use crate::backend::{block_index, Backend};
use crate::ledger::{acct_index, apply_extrinsic_spec, lemma_acct_index_props, INHERENT_WEIGHT};
use crate::builder::BlockBuilder;
use crate::ledger::{apply_body_spec, body_weight, root_spec};
use crate::types::{
    Account, BackendConfig, Block, Error, Extrinsic, PruningMode, PushError,
};

verus! {

/// Whole currency units, the denomination of the harness's transfers.
pub const DOLLARS: u64 = 1000;

/// Account id of the harness's fixed recipient.
pub const BOB: u64 = 2;
/// Account id of the harness's fixed signer.
pub const CHARLIE: u64 = 3;

/// Inherent kind for the timestamp.
pub const TIMESTAMP_INHERENT: u64 = 0;
/// Inherent kind for the finality-tracker hint.
pub const FINALITY_TRACKER_INHERENT: u64 = 1;

/// The harness's runtime parameters, fixed at the values the whole suite
/// is written against.
#[derive(Clone, Copy, PartialEq, Eq, Structural, Debug)]
pub struct Test {
    pub block_hash_count: u64,
    pub maximum_block_weight: u64,
    pub maximum_block_length: u64,
    pub available_block_ratio: u64,
    pub minimum_period: u64,
    pub epoch_duration: u64,
    pub expected_block_time: u64,
}

impl Test {
    /// The fixed parameter values.
    pub fn new() -> (t: Test)
        ensures
            t.block_hash_count == 250,
            t.maximum_block_weight == 1024,
            t.maximum_block_length == 2048,
            t.available_block_ratio == 1_000_000_000,
            t.minimum_period == 1,
            t.epoch_duration == 3,
            t.expected_block_time == 1,
    {
        Test {
            block_hash_count: 250,
            maximum_block_weight: 1024,
            maximum_block_length: 2048,
            available_block_ratio: 1_000_000_000,
            minimum_period: 1,
            epoch_duration: 3,
            expected_block_time: 1,
        }
    }
}

/// A fresh chain for tests: a backend holding only a genesis block whose
/// state gives each listed authority one unit, duplicates ignored, with
/// the harness's weight ceiling and a cache-free, retain-everything
/// configuration.
pub fn new_test_ext(authorities: Vec<u64>) -> (b: Backend)
    ensures
        b.wf(),
        b.blocks@.len() == 1,
        b.best_number == 0,
        b.finalized_number == 0,
        b.max_weight == 1024,
        b.config.state_cache_size == 0,
        b.config.pruning == PruningMode::ArchiveAll,
        (b.blocks@[0].state matches Some(st) && {
            &&& (forall|j: int|
                0 <= j < st@.len() ==> (#[trigger] st@[j]).balance == 1 && st@[j].nonce == 0)
            &&& (forall|j: int|
                0 <= j < st@.len() ==> authorities@.contains((#[trigger] st@[j]).id))
            &&& (forall|a: u64|
                authorities@.contains(a) ==> (exists|j: int|
                    0 <= j < st@.len() && (#[trigger] st@[j]).id == a))
        }),
{
    let params = Test::new();
    let mut genesis_accounts: Vec<Account> = Vec::new();
    let mut i: usize = 0;
    while i < authorities.len()
        invariant
            i <= authorities@.len(),
            forall|j: int|
                0 <= j < genesis_accounts@.len() ==> (#[trigger] genesis_accounts@[j]).balance
                    == 1 && genesis_accounts@[j].nonce == 0,
            forall|j: int|
                0 <= j < genesis_accounts@.len() ==> authorities@.take(i as int).contains(
                    (#[trigger] genesis_accounts@[j]).id,
                ),
            forall|a: u64|
                authorities@.take(i as int).contains(a) ==> exists|j: int|
                    0 <= j < genesis_accounts@.len() && (#[trigger] genesis_accounts@[j]).id == a,
        decreases authorities@.len() - i,
    {
        let a = authorities[i];
        let mut seen = false;
        let mut j: usize = 0;
        while j < genesis_accounts.len()
            invariant
                j <= genesis_accounts@.len(),
                seen == exists|q: int|
                    0 <= q < j && (#[trigger] genesis_accounts@[q]).id == a,
            decreases genesis_accounts@.len() - j,
        {
            if genesis_accounts[j].id == a {
                seen = true;
            }
            j = j + 1;
        }
        let ghost ga0 = genesis_accounts@;
        if !seen {
            genesis_accounts.push(Account { id: a, balance: 1, nonce: 0 });
        }
        proof {
            assert(authorities@.take(i + 1).drop_last() =~= authorities@.take(i as int));
            assert(authorities@.take(i + 1).last() == authorities@[i as int]);
            assert forall|x: u64| authorities@.take(i + 1).contains(x) implies (
            authorities@.take(i as int).contains(x) || x == a) by {
                let q = choose|q: int|
                    0 <= q < authorities@.take(i + 1).len() && #[trigger] authorities@.take(
                        i + 1,
                    )[q] == x;
                if q < i {
                    assert(authorities@.take(i as int)[q] == x);
                }
            }
            assert(authorities@.take(i + 1)[i as int] == a);
            assert forall|x: u64| #[trigger] authorities@.take(i + 1).contains(x) implies (
            exists|j: int|
                0 <= j < genesis_accounts@.len() && (#[trigger] genesis_accounts@[j]).id
                    == x) by {
                if authorities@.take(i as int).contains(x) {
                    let jw = choose|j: int| 0 <= j < ga0.len() && (#[trigger] ga0[j]).id == x;
                    assert(genesis_accounts@[jw].id == x);
                } else {
                    if seen {
                        let jw = choose|j: int| 0 <= j < ga0.len() && (#[trigger] ga0[j]).id == a;
                        assert(genesis_accounts@[jw].id == a);
                    } else {
                        assert(genesis_accounts@[ga0.len() as int].id == a);
                    }
                }
            }
        }
        i = i + 1;
    }
    proof {
        assert(authorities@.take(authorities@.len() as int) =~= authorities@);
        assert(forall|j: int|
            0 <= j < genesis_accounts@.len() ==> (#[trigger] genesis_accounts@[j]).balance == 1
                && genesis_accounts@[j].nonce == 0);
        assert(forall|j: int|
            0 <= j < genesis_accounts@.len() ==> authorities@.contains(
                (#[trigger] genesis_accounts@[j]).id,
            ));
        assert(forall|a: u64|
            authorities@.contains(a) ==> (exists|j: int|
                0 <= j < genesis_accounts@.len() && (#[trigger] genesis_accounts@[j]).id == a));
    }
    let config = BackendConfig {
        state_cache_size: 0,
        state_cache_child_ratio: 0,
        pruning: PruningMode::ArchiveAll,
    };
    let ghost gav = genesis_accounts@;
    let b = Backend::new(config, params.maximum_block_weight, genesis_accounts);
    proof {
        assert(b.blocks@[0].state is Some);
        assert(b.blocks@[0].state matches Some(st) && st@ == gav);
    }
    b
}


/// The harness's standing assumption on the chain it runs against: the
/// best block's state is available, the fixed signer is fresh and funded
/// for the full run, the recipient does not exist yet, and the budget
/// admits the two mandatory inherents.
pub open spec fn funded_for_run(o: Backend) -> bool {
    let bi = block_index(o.blocks@, o.best_hash());
    &&& o.best_number < u64::MAX
    &&& o.max_weight >= 2 * INHERENT_WEIGHT
    &&& (o.blocks@[bi].state matches Some(ps) && {
        let ic = acct_index(ps@, CHARLIE);
        &&& ic >= 0
        &&& ps@[ic].nonce == 0
        &&& ps@[ic].balance >= 1000 * DOLLARS
        &&& acct_index(ps@, BOB) == -1
    })
}

/// The shape the draft state keeps through the harness's transfer run:
/// the signer's account debited and counted up in place, the recipient
/// grown at the end, everything else untouched.
pub open spec fn run_state_shape(ps: Seq<Account>, ic: int, st: Seq<Account>, nonce: u64) -> bool {
    &&& 0 <= ic < ps.len()
    &&& st.len() == (if nonce == 0 {
        ps.len() as int
    } else {
        ps.len() as int + 1
    })
    &&& st[ic].id == CHARLIE
    &&& st[ic].nonce == nonce
    &&& st[ic].balance == ps[ic].balance - nonce * DOLLARS
    &&& (forall|q: int| 0 <= q < ps.len() && q != ic ==> #[trigger] st[q] == ps[q])
    &&& (nonce > 0 ==> st[ps.len() as int].id == BOB && st[ps.len() as int].balance == nonce
        * DOLLARS && st[ps.len() as int].nonce == 0)
}

/// One deterministic transfer of the run is valid against a state of the
/// run's shape, and keeps the shape with the nonce counted up.
pub proof fn lemma_run_transfer_applies(ps: Seq<Account>, ic: int, st: Seq<Account>, nonce: u64)
    requires
        run_state_shape(ps, ic, st, nonce),
        acct_index(ps, CHARLIE) == ic,
        acct_index(ps, BOB) == -1,
        ps[ic].balance >= 1000 * DOLLARS,
        ps[ic].nonce == 0,
        nonce < 1000,
    ensures
        ({
            let r = apply_extrinsic_spec(
                st,
                Extrinsic::Transfer { from: CHARLIE, to: BOB, amount: DOLLARS, nonce },
            );
            &&& r is Some
            &&& run_state_shape(ps, ic, r.unwrap(), (nonce + 1) as u64)
        }),
{
    lemma_acct_index_props(ps, CHARLIE, 0);
    lemma_acct_index_props(ps, BOB, 0);
    lemma_acct_index_props(st, CHARLIE, 0);
    lemma_acct_index_props(st, BOB, 0);
    let l = ps.len() as int;
    assert(acct_index(st, CHARLIE) == ic) by {
        let r = acct_index(st, CHARLIE);
        if r < 0 {
            assert(st[ic].id != CHARLIE);
        } else if r < ic {
            assert(st[r] == ps[r]);
        } else if r > ic {
            assert(st[ic].id != CHARLIE);
        }
    }
    if nonce == 0 {
        assert(acct_index(st, BOB) == -1) by {
            let r = acct_index(st, BOB);
            if r >= 0 {
                if r != ic {
                    assert(st[r] == ps[r]);
                    assert(ps[r].id != BOB);
                }
            }
        }
    } else {
        assert(acct_index(st, BOB) == l) by {
            let r = acct_index(st, BOB);
            assert(st[l].id == BOB);
            if r < 0 {
                assert(st[l].id != BOB);
            } else if r < l {
                if r != ic {
                    assert(st[r] == ps[r]);
                    assert(ps[r].id != BOB);
                }
            } else if r > l {
                assert(st[l].id != BOB);
            }
        }
    }
    let debited = Account {
        id: CHARLIE,
        balance: (st[ic].balance - DOLLARS) as u64,
        nonce: (st[ic].nonce + 1) as u64,
    };
    let r = apply_extrinsic_spec(
        st,
        Extrinsic::Transfer { from: CHARLIE, to: BOB, amount: DOLLARS, nonce },
    );
    if nonce == 0 {
        assert(r == Some(st.update(ic, debited).push(Account { id: BOB, balance: DOLLARS, nonce: 0 })));
    } else {
        assert(st[l].balance + DOLLARS <= u64::MAX);
        assert(r == Some(st.update(ic, debited).update(
            l,
            Account { id: BOB, balance: (st[l].balance + DOLLARS) as u64, nonce: st[l].nonce },
        )));
    }
    assert(run_state_shape(ps, ic, r.unwrap(), (nonce + 1) as u64));
}

/// Builds an almost-full block on top of the current best block: the two
/// mandatory inherents first, then deterministic transfers from the fixed
/// signer to the fixed recipient with nonces counting up from zero,
/// stopping at the first `ResourcesExhausted`. A validity rejection or a
/// failed inherent is fatal and reported, never absorbed.
pub fn generate_block_import(backend: &Backend, params: &Test) -> (r: Result<Block, Error>)
    requires
        backend.wf(),
    ensures
        funded_for_run(*backend) ==> r is Ok,
        r matches Ok(b) ==> {
            &&& b.header.parent_hash == backend.best_hash()
            &&& b.header.number == backend.best_number + 1
            &&& body_weight(b.extrinsics@) <= backend.max_weight
            &&& b.extrinsics@.len() >= 2
            &&& b.extrinsics@[0] == (Extrinsic::Inherent {
                kind: TIMESTAMP_INHERENT,
                payload: params.minimum_period,
            })
            &&& b.extrinsics@[1] == (Extrinsic::Inherent {
                kind: FINALITY_TRACKER_INHERENT,
                payload: 0,
            })
            &&& (forall|m: int|
                2 <= m < b.extrinsics@.len() ==> #[trigger] b.extrinsics@[m] == (
                Extrinsic::Transfer {
                    from: CHARLIE,
                    to: BOB,
                    amount: DOLLARS,
                    nonce: (m - 2) as u64,
                }))
            &&& (backend.blocks@[block_index(backend.blocks@, backend.best_hash())].state
                matches Some(ps) && {
                &&& apply_body_spec(ps@, b.extrinsics@) is Some
                &&& b.header.state_root == root_spec(apply_body_spec(ps@, b.extrinsics@).unwrap())
            })
        },
{
    let ghost fund = funded_for_run(*backend);
    let ghost ps: Seq<Account> = match backend.blocks@[block_index(
        backend.blocks@,
        backend.best_hash(),
    )].state {
        Some(v) => v@,
        None => Seq::empty(),
    };
    let ghost ic = acct_index(ps, CHARLIE);
    let info = backend.chain_info();
    let mut builder = match BlockBuilder::new_block(backend, info.best_hash) {
        Err(e) => {
            proof {
                if fund {
                    assert(block_index(backend.blocks@, backend.best_hash()) >= 0);
                    assert(false);
                }
            }
            return Err(Error::Backend(e));
        }
        Ok(bb) => bb,
    };
    proof {
        if fund {
            lemma_acct_index_props(ps, CHARLIE, 0);
        }
    }
    match builder.push(Extrinsic::Inherent { kind: TIMESTAMP_INHERENT, payload: params.minimum_period }) {
        Err(e) => {
            proof {
                if fund {
                    assert(!crate::builder::has_user_xt(Seq::<Extrinsic>::empty()));
                    assert(false);
                }
            }
            return Err(Error::Push(e));
        }
        Ok(()) => {}
    }
    match builder.push(Extrinsic::Inherent { kind: FINALITY_TRACKER_INHERENT, payload: 0 }) {
        Err(e) => {
            proof {
                if fund {
                    assert forall|j: int| 0 <= j < builder.extrinsics@.len() implies (
                    #[trigger] builder.extrinsics@[j]) is Inherent by {}
                    assert(!crate::builder::has_user_xt(builder.extrinsics@));
                    assert(false);
                }
            }
            return Err(Error::Push(e));
        }
        Ok(()) => {}
    }
    proof {
        if fund {
            assert(run_state_shape(ps, ic, builder.state@, 0));
        }
    }
    let mut nonce: u64 = 0;
    while nonce < 1000
        invariant
            fund == funded_for_run(*backend),
            ps == match backend.blocks@[block_index(backend.blocks@, backend.best_hash())].state {
                Some(v) => v@,
                None => Seq::<Account>::empty(),
            },
            ic == acct_index(ps, CHARLIE),
            fund ==> run_state_shape(ps, ic, builder.state@, nonce),
            builder.wf(),
            builder.parent_hash == backend.best_hash(),
            builder.parent_number == backend.best_number,
            builder.max_weight == backend.max_weight,
            backend.blocks@[block_index(backend.blocks@, backend.best_hash())].state
                matches Some(ps) && builder.parent_state@ == ps@,
            builder.extrinsics@.len() == nonce + 2,
            builder.extrinsics@[0] == (Extrinsic::Inherent {
                kind: TIMESTAMP_INHERENT,
                payload: params.minimum_period,
            }),
            builder.extrinsics@[1] == (Extrinsic::Inherent {
                kind: FINALITY_TRACKER_INHERENT,
                payload: 0,
            }),
            forall|m: int|
                2 <= m < builder.extrinsics@.len() ==> #[trigger] builder.extrinsics@[m] == (
                Extrinsic::Transfer {
                    from: CHARLIE,
                    to: BOB,
                    amount: DOLLARS,
                    nonce: (m - 2) as u64,
                }),
        ensures
            builder.wf(),
            builder.parent_hash == backend.best_hash(),
            builder.parent_number == backend.best_number,
            builder.max_weight == backend.max_weight,
            backend.blocks@[block_index(backend.blocks@, backend.best_hash())].state
                matches Some(ps) && builder.parent_state@ == ps@,
            builder.extrinsics@.len() >= 2,
            builder.extrinsics@[0] == (Extrinsic::Inherent {
                kind: TIMESTAMP_INHERENT,
                payload: params.minimum_period,
            }),
            builder.extrinsics@[1] == (Extrinsic::Inherent {
                kind: FINALITY_TRACKER_INHERENT,
                payload: 0,
            }),
            forall|m: int|
                2 <= m < builder.extrinsics@.len() ==> #[trigger] builder.extrinsics@[m] == (
                Extrinsic::Transfer {
                    from: CHARLIE,
                    to: BOB,
                    amount: DOLLARS,
                    nonce: (m - 2) as u64,
                }),
        decreases 1000 - nonce,
    {
        proof {
            if fund {
                lemma_acct_index_props(ps, CHARLIE, 0);
                lemma_run_transfer_applies(ps, ic, builder.state@, nonce);
            }
        }
        match builder.push(Extrinsic::Transfer {
            from: CHARLIE,
            to: BOB,
            amount: DOLLARS,
            nonce,
        }) {
            Err(PushError::ResourcesExhausted) => {
                break;
            }
            Err(e) => {
                proof {
                    if fund {
                        assert(false);
                    }
                }
                return Err(Error::Push(e));
            }
            Ok(()) => {}
        }
        nonce = nonce + 1;
    }
    Ok(builder.build())
}

} // verus!
