//! The importer: validates a fully-formed block against its declared
//! parent, persists it together with its auxiliary writes as one unit,
//! applies the fork-choice policy to the canonical head, and keeps
//! finalization irreversible. On any outcome other than a successful
//! import the backend is left exactly as it was.

use vstd::prelude::*;
use crate::types::{
    Account, BlockImportParams, Header, ImportError, ImportResult, ImportedAux,
};
use crate::backend::{
    apply_aux_spec, aux_index, aux_index_from, aux_write_spec, block_index, chain_hash_at,
    has_hash, lemma_block_index_push, lemma_block_index_update, number_of, Backend, StoredBlock,
};
use crate::ledger::{apply_body_spec, body_weight, clone_accounts, execute_body, root_spec, state_root};

verus! {

/// Whether a stored block agrees with a resubmitted header on the fields
/// the chain structure depends on.
pub open spec fn stored_header_match(o: Backend, h: Header) -> bool {
    let bi = block_index(o.blocks@, h.hash);
    &&& o.blocks@[bi].header.parent_hash == h.parent_hash
    &&& o.blocks@[bi].header.number == h.number
}

/// The parent's stored state, as a sequence.
pub open spec fn parent_state_of(o: Backend, h: Header) -> Option<Seq<Account>> {
    match o.blocks@[block_index(o.blocks@, h.parent_hash)].state {
        Some(v) => Some(v@),
        None => None,
    }
}

/// The state snapshot an import stores: a supplied diff as given, an
/// executed body's post-state, nothing for a header-only import or when
/// the parent's state is absent.
pub open spec fn new_state_spec(o: Backend, p: BlockImportParams) -> Option<Seq<Account>> {
    match p.storage_changes {
        Some(diff) => Some(diff@),
        None => match p.body {
            Some(xts) => match parent_state_of(o, p.header) {
                Some(ps) => apply_body_spec(ps, xts@),
                None => None,
            },
            None => None,
        },
    }
}

/// The outcome flags of a successful import. `is_new_best` holds exactly
/// when the head pointer moves.
pub open spec fn aux_flags_spec(o: Backend, p: BlockImportParams) -> ImportedAux {
    ImportedAux {
        header_only: p.body is None,
        clear_justification_requests: false,
        needs_justification: false,
        bad_justification: match p.justification {
            Some(j) => j@.len() == 0,
            None => false,
        },
        needs_finality_proof: false,
        is_new_best: (p.header.number > o.best_number || p.finalized) && p.header.hash
            != o.best_hash(),
    }
}

/// The importer's decision, step by step: idempotence first, then header
/// sanity against the stored copy and the parent, then the guard that
/// nothing at or below the finalized head is rewritten, then body
/// execution against the parent state with the declared state root held
/// to the computed one.
pub open spec fn import_outcome(o: Backend, p: BlockImportParams) -> Result<ImportResult, ImportError> {
    let h = p.header;
    let bs = o.blocks@;
    if !p.import_existing && has_hash(bs, h.hash) {
        Ok(ImportResult::AlreadyInChain)
    } else if h.number == 0 {
        Ok(ImportResult::KnownBad)
    } else if p.import_existing && has_hash(bs, h.hash) && !stored_header_match(o, h) {
        Ok(ImportResult::KnownBad)
    } else if !has_hash(bs, h.parent_hash) {
        Ok(ImportResult::UnknownParent)
    } else if number_of(bs, h.parent_hash) + 1 != h.number {
        Ok(ImportResult::KnownBad)
    } else if chain_hash_at(bs, h.parent_hash, o.finalized_number) != o.finalized_hash() {
        Err(ImportError::FinalizedConflict)
    } else if p.storage_changes is Some {
        Ok(ImportResult::Imported(aux_flags_spec(o, p)))
    } else {
        match p.body {
            Some(xts) => match parent_state_of(o, h) {
                None => if !p.allow_missing_state {
                    Ok(ImportResult::UnknownParent)
                } else {
                    Ok(ImportResult::Imported(aux_flags_spec(o, p)))
                },
                Some(ps) => if apply_body_spec(ps, xts@) is None || body_weight(xts@)
                    > o.max_weight {
                    Ok(ImportResult::KnownBad)
                } else if root_spec(apply_body_spec(ps, xts@).unwrap()) != h.state_root {
                    Err(ImportError::StateRootMismatch)
                } else {
                    Ok(ImportResult::Imported(aux_flags_spec(o, p)))
                },
            },
            None => Ok(ImportResult::Imported(aux_flags_spec(o, p))),
        }
    }
}

/// What a successful import does to the backend: the block and its
/// auxiliary writes persisted as one unit, every other block untouched,
/// the head advanced exactly per fork choice or an attached finality
/// proof, and the canonical chain at or below the old finalized height
/// kept word for word.
pub open spec fn import_commit_ok(o: Backend, p: BlockImportParams, f: Backend) -> bool {
    let h = p.header;
    let bi = block_index(o.blocks@, h.hash);
    let ni = if bi >= 0 {
        bi
    } else {
        o.blocks@.len() as int
    };
    let new_best = h.number > o.best_number || p.finalized;
    &&& f.blocks@.len() as int == (if bi >= 0 {
        o.blocks@.len() as int
    } else {
        o.blocks@.len() as int + 1
    })
    &&& ({
        let sb = f.blocks@[ni];
        &&& sb.header.hash == h.hash
        &&& sb.header.parent_hash == h.parent_hash
        &&& sb.header.number == h.number
        &&& sb.header.state_root == h.state_root
        &&& sb.header.digest@ == h.digest@ + p.post_digests@
        &&& (match sb.body {
            Some(b) => p.body matches Some(pb) && b@ == pb@,
            None => p.body is None,
        })
        &&& (match sb.state {
            Some(st) => new_state_spec(o, p) matches Some(s) && st@ == s,
            None => new_state_spec(o, p) is None,
        })
        &&& (match sb.justification {
            Some(j) => p.justification matches Some(pj) && j@ == pj@,
            None => p.justification is None,
        })
    })
    &&& forall|q: int| 0 <= q < o.blocks@.len() && q != ni ==> #[trigger] f.blocks@[q]
        == o.blocks@[q]
    &&& f.aux@ == apply_aux_spec(o.aux@, p.auxiliary@)
    &&& f.justifications@ == o.justifications@
    &&& f.max_weight == o.max_weight
    &&& f.config == o.config
    &&& (new_best ==> f.best_number == h.number && f.best_hash() == h.hash)
    &&& (!new_best ==> f.best_number == o.best_number && f.canonical@ == o.canonical@)
    &&& f.finalized_number == (if p.finalized {
        h.number
    } else {
        o.finalized_number
    })
    &&& f.finalized_hash() == (if p.finalized {
        h.hash
    } else {
        o.finalized_hash()
    })
    &&& forall|t: int| 0 <= t <= o.finalized_number ==> #[trigger] f.canonical@[t]
        == o.canonical@[t]
}

/// One auxiliary write: `Some` inserts or updates the key, `None`
/// deletes it.
fn aux_write(aux: &mut Vec<(u64, u64)>, key: u64, val: Option<u64>)
    ensures
        final(aux)@ == aux_write_spec(old(aux)@, key, val),
{
    let mut i: usize = 0;
    let mut found: Option<usize> = None;
    while i < aux.len()
        invariant_except_break
            i <= aux@.len(),
            found is None,
            aux_index(aux@, key) == aux_index_from(aux@, key, i as int),
        ensures
            match found {
                Some(j) => aux_index(aux@, key) == j && j < aux@.len() && aux@[j as int].0 == key,
                None => aux_index(aux@, key) == -1,
            },
        decreases aux@.len() - i,
    {
        if aux[i].0 == key {
            found = Some(i);
            break;
        }
        i = i + 1;
    }
    match found {
        Some(j) => match val {
            Some(v) => {
                aux.set(j, (key, v));
            }
            None => {
                aux.remove(j);
            }
        },
        None => match val {
            Some(v) => {
                aux.push((key, v));
            }
            None => {}
        },
    }
}

/// Imports one block. The backend is mutated only when the result is
/// `Imported`; every rejection and every error leaves it exactly as it
/// was, so a crash between validation and persistence can never expose a
/// half-imported block.
#[verifier::loop_isolation(false)]
#[verifier::rlimit(100)]
pub fn import_block(backend: &mut Backend, params: BlockImportParams) -> (r: Result<ImportResult, ImportError>)
    requires
        old(backend).wf(),
    ensures
        final(backend).wf(),
        r == import_outcome(*old(backend), params),
        !(r matches Ok(ImportResult::Imported(_))) ==> *final(backend) == *old(backend),
        (r matches Ok(ImportResult::Imported(_))) ==> import_commit_ok(
            *old(backend),
            params,
            *final(backend),
        ),
{
    let ghost o = *old(backend);
    let ghost pg = params;
    let BlockImportParams {
        origin: _,
        header,
        post_digests,
        body,
        storage_changes,
        finalized,
        justification,
        auxiliary,
        intermediates: _,
        fork_choice: _,
        allow_missing_state,
        import_existing,
    } = params;
    let ghost hg = header;
    let Header { hash, parent_hash, number, state_root: declared_root, digest } = header;
    let header_only = body.is_none();

    let existing = backend.find_block(hash);
    if existing.is_some() && !import_existing {
        return Ok(ImportResult::AlreadyInChain);
    }
    if number == 0 {
        return Ok(ImportResult::KnownBad);
    }
    match existing {
        Some(e) => {
            if !(backend.blocks[e].header.parent_hash == parent_hash
                && backend.blocks[e].header.number == number) {
                return Ok(ImportResult::KnownBad);
            }
        }
        None => {}
    }
    let pidx = match backend.find_block(parent_hash) {
        None => {
            return Ok(ImportResult::UnknownParent);
        }
        Some(p) => p,
    };
    let pn = backend.blocks[pidx].header.number;
    if pn == u64::MAX || pn + 1 != number {
        return Ok(ImportResult::KnownBad);
    }
    let (k, path) = backend.canonical_meet(parent_hash);
    let ghost fin = o.finalized_number;
    if k < backend.finalized_number {
        proof {
            if fin > pn {
                assert(chain_hash_at(o.blocks@, parent_hash, fin) == parent_hash);
                let cb = block_index(o.blocks@, o.canonical@[fin as int]);
                assert(cb >= 0 && o.blocks@[cb].header.number == fin);
                assert(o.blocks@[block_index(o.blocks@, parent_hash)].header.number == pn);
                assert(chain_hash_at(o.blocks@, parent_hash, fin) != o.finalized_hash());
            } else {
                let m = fin - k - 1;
                assert(0 <= m < path@.len());
                assert(path@[m] == chain_hash_at(o.blocks@, parent_hash, (k + 1 + m) as u64));
                assert(fin <= o.best_number);
                assert(path@[m] != o.canonical@[k + 1 + m]);
            }
        }
        return Err(ImportError::FinalizedConflict);
    }
    proof {
        assert(chain_hash_at(o.blocks@, parent_hash, fin) == o.canonical@[fin as int]);
    }

    let new_state: Option<Vec<Account>> = match storage_changes {
        Some(diff) => Some(diff),
        None => match &body {
            Some(xts) => {
                let parent_state_missing = backend.blocks[pidx].state.is_none();
                if parent_state_missing {
                    if !allow_missing_state {
                        return Ok(ImportResult::UnknownParent);
                    }
                    None
                } else {
                    let copied = match &backend.blocks[pidx].state {
                        Some(pst) => clone_accounts(pst),
                        None => {
                            proof {
                                assert(false);
                            }
                            Vec::new()
                        }
                    };
                    match execute_body(copied, xts, backend.max_weight) {
                        None => {
                            return Ok(ImportResult::KnownBad);
                        }
                        Some(st1) => {
                            let computed = state_root(&st1);
                            if computed != declared_root {
                                return Err(ImportError::StateRootMismatch);
                            }
                            Some(st1)
                        }
                    }
                }
            }
            None => None,
        },
    };

    let ln = backend.canonical.len();
    let old_best_hash = backend.canonical[ln - 1];
    let new_best = number > backend.best_number || finalized;
    let moved = new_best && hash != old_best_hash;
    let bad_j = match &justification {
        Some(j) => j.len() == 0,
        None => false,
    };
    let flags = ImportedAux {
        header_only,
        clear_justification_requests: false,
        needs_justification: false,
        bad_justification: bad_j,
        needs_finality_proof: false,
        is_new_best: moved,
    };
    proof {
        assert(flags == aux_flags_spec(o, pg));
    }

    let ghost d0 = digest@;
    let mut full_digest = digest;
    let mut di: usize = 0;
    while di < post_digests.len()
        invariant
            di <= post_digests@.len(),
            full_digest@ == d0 + post_digests@.take(di as int),
        decreases post_digests@.len() - di,
    {
        full_digest.push(post_digests[di]);
        proof {
            assert(d0 + post_digests@.take(di + 1) =~= (d0 + post_digests@.take(di as int)).push(
                post_digests@[di as int],
            ));
        }
        di = di + 1;
    }
    proof {
        assert(post_digests@.take(post_digests@.len() as int) =~= post_digests@);
    }

    let sb = StoredBlock {
        header: Header {
            hash,
            parent_hash,
            number,
            state_root: declared_root,
            digest: full_digest,
        },
        body,
        state: new_state,
        justification,
    };
    let ghost sbg = sb;

    let ghost bi0 = block_index(o.blocks@, hash);
    commit_block(backend, sb, existing, k, path, new_best, finalized, auxiliary);
    proof {
        let f = *backend;
        let ni = if bi0 >= 0 { bi0 } else { o.blocks@.len() as int };
        assert(f.blocks@[ni] == sbg);
        assert forall|q: int| 0 <= q < o.blocks@.len() && q != ni implies #[trigger] f.blocks@[q]
            == o.blocks@[q] by {}
        assert(sbg.header.digest@ == hg.digest@ + pg.post_digests@);
        assert(import_commit_ok(o, pg, f));
        assert(import_outcome(o, pg) == Ok::<ImportResult, ImportError>(ImportResult::Imported(
            aux_flags_spec(o, pg),
        )));
    }
    Ok(ImportResult::Imported(flags))
}

/// Persists a validated block with its auxiliary writes and moves the
/// head and finalized pointers as instructed. The chain facts gathered by
/// validation come in through the contract; the invariant comes out
/// re-established.
#[verifier::rlimit(100)]
fn commit_block(
    backend: &mut Backend,
    sb: StoredBlock,
    existing: Option<usize>,
    k: u64,
    path: Vec<u64>,
    make_best: bool,
    make_final: bool,
    auxiliary: Vec<(u64, Option<u64>)>,
)
    requires
        old(backend).wf(),
        sb.header.number >= 1,
        match existing {
            Some(e) => (e as int) < old(backend).blocks@.len() && block_index(
                old(backend).blocks@,
                sb.header.hash,
            ) == e as int && old(backend).blocks@[e as int].header.parent_hash
                == sb.header.parent_hash && old(backend).blocks@[e as int].header.number
                == sb.header.number,
            None => block_index(old(backend).blocks@, sb.header.hash) == -1,
        },
        has_hash(old(backend).blocks@, sb.header.parent_hash),
        number_of(old(backend).blocks@, sb.header.parent_hash) + 1 == sb.header.number,
        k <= old(backend).best_number,
        k <= number_of(old(backend).blocks@, sb.header.parent_hash),
        path@.len() == number_of(old(backend).blocks@, sb.header.parent_hash) - k,
        old(backend).finalized_number <= k,
        forall|m: int|
            0 <= m < path@.len() ==> {
                let b = block_index(old(backend).blocks@, #[trigger] path@[m]);
                &&& 0 <= b
                &&& old(backend).blocks@[b].header.number == k + 1 + m
                &&& old(backend).blocks@[b].header.parent_hash == (if m == 0 {
                    old(backend).canonical@[k as int]
                } else {
                    path@[m - 1]
                })
            },
        path@.len() > 0 ==> path@[path@.len() - 1] == sb.header.parent_hash,
        path@.len() == 0 ==> sb.header.parent_hash == old(backend).canonical@[k as int],
        make_final ==> make_best,
        make_best == (sb.header.number > old(backend).best_number || make_final),
    ensures
        final(backend).wf(),
        ({
            let o = *old(backend);
            let bi = block_index(o.blocks@, sb.header.hash);
            let ni = if bi >= 0 {
                bi
            } else {
                o.blocks@.len() as int
            };
            &&& final(backend).blocks@ == (if bi >= 0 {
                o.blocks@.update(ni, sb)
            } else {
                o.blocks@.push(sb)
            })
            &&& final(backend).aux@ == apply_aux_spec(o.aux@, auxiliary@)
            &&& final(backend).justifications@ == o.justifications@
            &&& final(backend).max_weight == o.max_weight
            &&& final(backend).config == o.config
            &&& (make_best ==> final(backend).best_number == sb.header.number
                && final(backend).best_hash() == sb.header.hash)
            &&& (!make_best ==> final(backend).best_number == o.best_number
                && final(backend).canonical@ == o.canonical@)
            &&& final(backend).finalized_number == (if make_final {
                sb.header.number
            } else {
                o.finalized_number
            })
            &&& final(backend).finalized_hash() == (if make_final {
                sb.header.hash
            } else {
                o.finalized_hash()
            })
            &&& (forall|t: int|
                0 <= t <= o.finalized_number ==> #[trigger] final(backend).canonical@[t]
                    == o.canonical@[t])
        }),
{
    let ghost o = *old(backend);
    let ghost fin = o.finalized_number;
    let ghost pidx = block_index(o.blocks@, sb.header.parent_hash);
    let hash = sb.header.hash;
    let parent_hash = sb.header.parent_hash;
    let number = sb.header.number;
    let ghost sbg = sb;
    let ghost mut ni: int = 0;
    match existing {
        Some(e) => {
            proof {
                ni = e as int;
            }
            backend.blocks.set(e, sb);
            proof {
                crate::backend::lemma_block_index_found(o.blocks@, sbg.header.hash, 0);
                assert(backend.blocks@ == o.blocks@.update(ni, sbg));
                assert forall|x: u64| #[trigger] block_index(backend.blocks@, x) == block_index(
                    o.blocks@,
                    x,
                ) by {
                    lemma_block_index_update(o.blocks@, ni, sbg, x, 0);
                }
                assert(block_index(backend.blocks@, hash) == ni);
            }
        }
        None => {
            proof {
                ni = o.blocks@.len() as int;
                assert(block_index(o.blocks@, hash) == -1);
            }
            backend.blocks.push(sb);
            proof {
                assert(backend.blocks@ == o.blocks@.push(sbg));
                assert(sbg.header.hash == hash);
                assert forall|x: u64| x != hash implies #[trigger] block_index(
                    backend.blocks@,
                    x,
                ) == block_index(o.blocks@, x) by {
                    lemma_block_index_push(o.blocks@, sbg, x, 0);
                    crate::backend::lemma_block_index_found(o.blocks@, x, 0);
                }
                assert(block_index(backend.blocks@, hash) == ni) by {
                    lemma_block_index_push(o.blocks@, sbg, hash, 0);
                }
            }
        }
    }
    let ghost bs2 = backend.blocks@;
    proof {
        assert(bs2[ni] == sbg);
        assert(block_index(bs2, hash) == ni);
        assert forall|x: u64| x != hash implies #[trigger] block_index(bs2, x) == block_index(
            o.blocks@,
            x,
        ) by {
            if block_index(o.blocks@, hash) >= 0 {
                lemma_block_index_update(o.blocks@, ni, sbg, x, 0);
            } else {
                lemma_block_index_push(o.blocks@, sbg, x, 0);
            }
        }
        assert(parent_hash != hash) by {
            if parent_hash == hash {
                assert(block_index(o.blocks@, parent_hash) == pidx);
            }
        }
    }

    let mut wi: usize = 0;
    while wi < auxiliary.len()
        invariant
            wi <= auxiliary@.len(),
            backend.blocks@ == bs2,
            backend.canonical@ == o.canonical@,
            backend.best_number == o.best_number,
            backend.finalized_number == o.finalized_number,
            backend.justifications@ == o.justifications@,
            backend.max_weight == o.max_weight,
            backend.config == o.config,
            backend.aux@ == apply_aux_spec(o.aux@, auxiliary@.take(wi as int)),
        decreases auxiliary@.len() - wi,
    {
        let w = auxiliary[wi];
        aux_write(&mut backend.aux, w.0, w.1);
        proof {
            assert(auxiliary@.take(wi + 1).drop_last() =~= auxiliary@.take(wi as int));
            assert(auxiliary@.take(wi + 1).last() == auxiliary@[wi as int]);
        }
        wi = wi + 1;
    }
    proof {
        assert(auxiliary@.take(auxiliary@.len() as int) =~= auxiliary@);
    }

    if make_best {
        let lnc = backend.canonical.len();
        proof {
            assert(k < lnc as u64);
        }
        let keep = (k as usize) + 1;
        backend.canonical.truncate(keep);
        proof {
            assert(backend.canonical@ =~= o.canonical@.take(k + 1));
        }
        let mut m: usize = 0;
        while m < path.len()
            invariant
                m <= path@.len(),
                backend.canonical@ == o.canonical@.take(k + 1) + path@.take(m as int),
                backend.blocks@ == bs2,
                backend.best_number == o.best_number,
                backend.finalized_number == o.finalized_number,
                backend.aux@ == apply_aux_spec(o.aux@, auxiliary@),
                backend.justifications@ == o.justifications@,
                backend.max_weight == o.max_weight,
                backend.config == o.config,
            decreases path@.len() - m,
        {
            backend.canonical.push(path[m]);
            proof {
                assert(o.canonical@.take(k + 1) + path@.take(m + 1) =~= (o.canonical@.take(k + 1)
                    + path@.take(m as int)).push(path@[m as int]));
            }
            m = m + 1;
        }
        proof {
            assert(path@.take(path@.len() as int) =~= path@);
        }
        backend.canonical.push(hash);
        backend.best_number = number;
    }
    if make_final {
        backend.finalized_number = number;
    }

    proof {
        if make_best {
            assert(backend.canonical@ =~= o.canonical@.take(k as int + 1) + path@ + seq![
                sbg.header.hash,
            ]);
        }
        lemma_commit_wf(o, *backend, sbg, ni, k, path@, make_best, make_final);
    }
}

/// Everything validation and persistence guarantee at commit time,
/// gathered for the invariant-restoration lemmas.
pub open spec fn commit_shape(
    o: Backend,
    f: Backend,
    sb: StoredBlock,
    ni: int,
    k: u64,
    path: Seq<u64>,
    make_best: bool,
    make_final: bool,
) -> bool {
    &&& (o.wf())
    &&& (sb.header.number >= 1)
    &&& (
        ni == (if block_index(o.blocks@, sb.header.hash) >= 0 {
            block_index(o.blocks@, sb.header.hash)
        } else {
            o.blocks@.len() as int
        })
    )
    &&& (
        f.blocks@ == (if block_index(o.blocks@, sb.header.hash) >= 0 {
            o.blocks@.update(ni, sb)
        } else {
            o.blocks@.push(sb)
        })
    )
    &&& (
        block_index(o.blocks@, sb.header.hash) >= 0 ==> o.blocks@[ni].header.parent_hash
            == sb.header.parent_hash && o.blocks@[ni].header.number == sb.header.number
    )
    &&& (block_index(f.blocks@, sb.header.hash) == ni)
    &&& (
        forall|x: u64| x != sb.header.hash ==> #[trigger] block_index(f.blocks@, x)
            == block_index(o.blocks@, x)
    )
    &&& (has_hash(o.blocks@, sb.header.parent_hash))
    &&& (number_of(o.blocks@, sb.header.parent_hash) + 1 == sb.header.number)
    &&& (sb.header.parent_hash != sb.header.hash)
    &&& (k <= o.best_number)
    &&& (k <= number_of(o.blocks@, sb.header.parent_hash))
    &&& (path.len() == number_of(o.blocks@, sb.header.parent_hash) - k)
    &&& (o.finalized_number <= k)
    &&& (
        forall|m: int|
            0 <= m < path.len() ==> {
                let b = block_index(o.blocks@, #[trigger] path[m]);
                &&& 0 <= b
                &&& o.blocks@[b].header.number == k + 1 + m
                &&& o.blocks@[b].header.parent_hash == (if m == 0 {
                    o.canonical@[k as int]
                } else {
                    path[m - 1]
                })
            }
    )
    &&& (path.len() > 0 ==> path[path.len() - 1] == sb.header.parent_hash)
    &&& (path.len() == 0 ==> sb.header.parent_hash == o.canonical@[k as int])
    &&& (make_final ==> make_best)
    &&& (make_best == (sb.header.number > o.best_number || make_final))
    &&& (make_best ==> f.canonical@ == o.canonical@.take(k + 1) + path + seq![sb.header.hash])
    &&& (!make_best ==> f.canonical@ == o.canonical@)
    &&& (
        f.best_number == (if make_best {
            sb.header.number
        } else {
            o.best_number
        })
    )
    &&& (
        f.finalized_number == (if make_final {
            sb.header.number
        } else {
            o.finalized_number
        })
    )
}

/// The block-store conjuncts of the invariant after a commit.
#[verifier::rlimit(100)]
proof fn lemma_commit_blocks(
    o: Backend,
    f: Backend,
    sb: StoredBlock,
    ni: int,
    k: u64,
    path: Seq<u64>,
    make_best: bool,
    make_final: bool,
)
    requires
        commit_shape(o, f, sb, ni, k, path, make_best, make_final),
    ensures
        f.blocks@.len() >= 1,
        f.blocks@[0].header.number == 0,
        forall|i: int|
            0 <= i < f.blocks@.len() && (#[trigger] f.blocks@[i]).header.number == 0 ==> i == 0,
        forall|i: int|
            0 <= i < f.blocks@.len() ==> #[trigger] block_index(
                f.blocks@,
                f.blocks@[i].header.hash,
            ) == i,
        forall|i: int|
            0 <= i < f.blocks@.len() && f.blocks@[i].header.number > 0 ==> {
                let p = #[trigger] block_index(f.blocks@, f.blocks@[i].header.parent_hash);
                &&& 0 <= p
                &&& f.blocks@[p].header.number + 1 == f.blocks@[i].header.number
            },
        f.blocks@[0] == o.blocks@[0],
{
    let fin = o.finalized_number;
    let pidx = block_index(o.blocks@, sb.header.parent_hash);
    let bs = f.blocks@;
    crate::backend::lemma_block_index_found(o.blocks@, sb.header.hash, 0);
    if block_index(o.blocks@, sb.header.hash) >= 0 {
        assert(bs == o.blocks@.update(ni, sb));
        assert(bs.len() == o.blocks@.len());
    } else {
        assert(bs == o.blocks@.push(sb));
        assert(ni == o.blocks@.len() as int);
    }
    assert forall|q: int| 0 <= q < bs.len() && q != ni implies #[trigger] bs[q] == o.blocks@[q] by {}
    assert(bs[ni] == sb);
        assert(ni != 0) by {
            if ni == 0 {
                assert(o.blocks@[0].header.number == 0);
                if block_index(o.blocks@, sb.header.hash) >= 0 {
                    assert(o.blocks@[ni].header.number == sb.header.number);
                }
            }
        }
        assert forall|i: int| 0 <= i < bs.len() && (#[trigger] bs[i]).header.number == 0 implies i
            == 0 by {
            if i != ni {
                assert(bs[i] == o.blocks@[i]);
            }
        }
        assert forall|i: int| 0 <= i < bs.len() implies #[trigger] block_index(
            bs,
            bs[i].header.hash,
        ) == i by {
            if i == ni {
                assert(bs[ni].header.hash == sb.header.hash);
            } else {
                assert(bs[i] == o.blocks@[i]);
                assert(block_index(o.blocks@, o.blocks@[i].header.hash) == i);
                if o.blocks@[i].header.hash == sb.header.hash {
                    assert(block_index(o.blocks@, sb.header.hash) == i);
                }
            }
        }
        assert forall|i: int| 0 <= i < bs.len() && (#[trigger] bs[i]).header.number > 0 implies {
            let p = block_index(bs, bs[i].header.parent_hash);
            &&& 0 <= p
            &&& bs[p].header.number + 1 == bs[i].header.number
        } by {
            if i == ni {
                assert(bs[ni].header.parent_hash == sb.header.parent_hash);
                crate::backend::lemma_block_index_found(o.blocks@, sb.header.parent_hash, 0);
                assert(0 <= pidx < o.blocks@.len());
                assert(o.blocks@[pidx].header.hash == sb.header.parent_hash);
                crate::backend::lemma_block_index_found(o.blocks@, sb.header.hash, 0);
                assert(block_index(bs, sb.header.parent_hash) == pidx);
                assert(pidx != ni);
                assert(bs[pidx] == o.blocks@[pidx]);
            } else {
                assert(bs[i] == o.blocks@[i]);
                let ph2 = o.blocks@[i].header.parent_hash;
                let p = block_index(o.blocks@, ph2);
                assert(0 <= p && o.blocks@[p].header.number + 1 == o.blocks@[i].header.number);
                crate::backend::lemma_block_index_found(o.blocks@, ph2, 0);
                assert(o.blocks@[p].header.hash == ph2);
                if ph2 == sb.header.hash {
                    assert(p == block_index(o.blocks@, sb.header.hash));
                    assert(p == ni);
                    assert(block_index(bs, ph2) == ni);
                    assert(bs[ni].header.number == sb.header.number);
                    assert(o.blocks@[ni].header.number == sb.header.number);
                } else {
                    assert(block_index(bs, ph2) == p);
                    assert(p != ni) by {
                        if p == ni {
                            crate::backend::lemma_block_index_found(bs, ph2, 0);
                            assert(bs[ni].header.hash == ph2);
                            assert(bs[ni].header.hash == sb.header.hash);
                        }
                    }
                    assert(bs[p] == o.blocks@[p]);
                }
            }
        }
        assert(bs[0] == o.blocks@[0]);
}

/// The canonical-chain conjuncts when the imported block becomes the
/// new head.
#[verifier::rlimit(100)]
proof fn lemma_commit_canonical_best(
    o: Backend,
    f: Backend,
    sb: StoredBlock,
    ni: int,
    k: u64,
    path: Seq<u64>,
    make_best: bool,
    make_final: bool,
)
    requires
        commit_shape(o, f, sb, ni, k, path, make_best, make_final),
        make_best,
    ensures
        f.canonical@.len() == f.best_number + 1,
        forall|j: int|
            0 <= j < f.canonical@.len() ==> {
                let b = #[trigger] block_index(f.blocks@, f.canonical@[j]);
                &&& 0 <= b
                &&& f.blocks@[b].header.number == j
                &&& (j > 0 ==> f.blocks@[b].header.parent_hash == f.canonical@[j - 1])
            },
        f.canonical@[0] == o.canonical@[0],
        f.best_hash() == sb.header.hash,
        forall|t: int| 0 <= t <= o.finalized_number ==> #[trigger] f.canonical@[t]
            == o.canonical@[t],
{
    let fin = o.finalized_number;
    let bs = f.blocks@;
    let n = sb.header.number as int;
    crate::backend::lemma_block_index_found(o.blocks@, sb.header.hash, 0);
    if block_index(o.blocks@, sb.header.hash) >= 0 {
        assert(bs == o.blocks@.update(ni, sb));
    } else {
        assert(bs == o.blocks@.push(sb));
    }
    assert forall|q: int| 0 <= q < bs.len() && q != ni implies #[trigger] bs[q] == o.blocks@[q] by {}
    assert(bs[ni] == sb);
            assert(f.canonical@ =~= o.canonical@.take(k + 1) + path + seq![sb.header.hash]);
            assert(f.canonical@.len() == n + 1);
            assert(f.best_number == sb.header.number);
            assert forall|j: int| 0 <= j < f.canonical@.len() implies {
                let b = #[trigger] block_index(bs, f.canonical@[j]);
                &&& 0 <= b
                &&& bs[b].header.number == j
                &&& (j > 0 ==> bs[b].header.parent_hash == f.canonical@[j - 1])
            } by {
                if j <= k {
                    assert(f.canonical@[j] == o.canonical@[j]);
                    let b = block_index(o.blocks@, o.canonical@[j]);
                    crate::backend::lemma_block_index_found(o.blocks@, o.canonical@[j], 0);
                    assert(0 <= b && o.blocks@[b].header.number == j);
                    if o.canonical@[j] == sb.header.hash {
                        assert(block_index(o.blocks@, sb.header.hash) == b);
                        assert(o.blocks@[b].header.number == sb.header.number);
                    }
                    assert(block_index(bs, f.canonical@[j]) == b);
                    assert(bs[b].header.number == o.blocks@[b].header.number
                        && bs[b].header.parent_hash == o.blocks@[b].header.parent_hash) by {
                        if b != ni {
                            assert(bs[b] == o.blocks@[b]);
                        }
                    }
                    if j > 0 {
                        assert(f.canonical@[j - 1] == o.canonical@[j - 1]);
                    }
                } else if j < n {
                    let m = j - k - 1;
                    assert(f.canonical@[j] == path[m]);
                    let b = block_index(o.blocks@, path[m]);
                    crate::backend::lemma_block_index_found(o.blocks@, path[m], 0);
                    assert(0 <= b && o.blocks@[b].header.number == k + 1 + m);
                    if path[m] == sb.header.hash {
                        assert(block_index(o.blocks@, sb.header.hash) == b);
                        assert(o.blocks@[b].header.number == sb.header.number);
                    }
                    assert(block_index(bs, f.canonical@[j]) == b);
                    assert(bs[b].header.number == o.blocks@[b].header.number
                        && bs[b].header.parent_hash == o.blocks@[b].header.parent_hash) by {
                        if b != ni {
                            assert(bs[b] == o.blocks@[b]);
                        }
                    }
                    if m == 0 {
                        assert(o.blocks@[b].header.parent_hash == o.canonical@[k as int]);
                        assert(f.canonical@[j - 1] == o.canonical@[k as int]);
                    } else {
                        assert(o.blocks@[b].header.parent_hash == path[m - 1]);
                        assert(f.canonical@[j - 1] == path[m - 1]);
                    }
                } else {
                    assert(j == n);
                    assert(f.canonical@[j] == sb.header.hash);
                    assert(block_index(bs, sb.header.hash) == ni);
                    assert(bs[ni].header.number == sb.header.number);
                    if path.len() > 0 {
                        assert(f.canonical@[j - 1] == path[path.len() - 1]);
                        assert(path[path.len() - 1] == sb.header.parent_hash);
                    } else {
                        assert(f.canonical@[j - 1] == o.canonical@[k as int]);
                        assert(o.canonical@[k as int] == sb.header.parent_hash);
                    }
                    assert(bs[ni].header.parent_hash == sb.header.parent_hash);
                }
            }
            assert(f.canonical@[0] == o.canonical@[0]);
            assert(f.best_hash() == sb.header.hash);
            assert forall|t: int| 0 <= t <= fin implies #[trigger] f.canonical@[t]
                == o.canonical@[t] by {
                assert(t <= k);
            }
}

/// The canonical-chain conjuncts when the head does not move.
#[verifier::rlimit(100)]
proof fn lemma_commit_canonical_stay(
    o: Backend,
    f: Backend,
    sb: StoredBlock,
    ni: int,
    k: u64,
    path: Seq<u64>,
    make_best: bool,
    make_final: bool,
)
    requires
        commit_shape(o, f, sb, ni, k, path, make_best, make_final),
        !make_best,
    ensures
        forall|j: int|
            0 <= j < f.canonical@.len() ==> {
                let b = #[trigger] block_index(f.blocks@, f.canonical@[j]);
                &&& 0 <= b
                &&& f.blocks@[b].header.number == j
                &&& (j > 0 ==> f.blocks@[b].header.parent_hash == f.canonical@[j - 1])
            },
{
    let bs = f.blocks@;
    crate::backend::lemma_block_index_found(o.blocks@, sb.header.hash, 0);
    if block_index(o.blocks@, sb.header.hash) >= 0 {
        assert(bs == o.blocks@.update(ni, sb));
    } else {
        assert(bs == o.blocks@.push(sb));
    }
    assert forall|q: int| 0 <= q < bs.len() && q != ni implies #[trigger] bs[q] == o.blocks@[q] by {}
    assert(bs[ni] == sb);
            assert(f.canonical@ == o.canonical@);
            assert forall|j: int| 0 <= j < f.canonical@.len() implies {
                let b = #[trigger] block_index(bs, f.canonical@[j]);
                &&& 0 <= b
                &&& bs[b].header.number == j
                &&& (j > 0 ==> bs[b].header.parent_hash == f.canonical@[j - 1])
            } by {
                let b = block_index(o.blocks@, o.canonical@[j]);
                crate::backend::lemma_block_index_found(o.blocks@, o.canonical@[j], 0);
                assert(0 <= b && o.blocks@[b].header.number == j);
                if o.canonical@[j] == sb.header.hash {
                    assert(block_index(o.blocks@, sb.header.hash) == b);
                    assert(o.blocks@[b].header.number == sb.header.number);
                    assert(bs[b].header.number == o.blocks@[b].header.number);
                    assert(bs[b].header.parent_hash == o.blocks@[b].header.parent_hash);
                } else {
                    assert(block_index(bs, f.canonical@[j]) == b);
                    assert(b != ni) by {
                        if b == ni {
                            crate::backend::lemma_block_index_found(o.blocks@, o.canonical@[j], 0);
                            crate::backend::lemma_block_index_found(o.blocks@, sb.header.hash, 0);
                        }
                    }
                    assert(bs[b] == o.blocks@[b]);
                }
            }
}

/// Re-establishes the backend invariant after a commit, and pins where
/// the head and finalized pointers land.
#[verifier::rlimit(100)]
proof fn lemma_commit_wf(
    o: Backend,
    f: Backend,
    sb: StoredBlock,
    ni: int,
    k: u64,
    path: Seq<u64>,
    make_best: bool,
    make_final: bool,
)
    requires
        commit_shape(o, f, sb, ni, k, path, make_best, make_final),
    ensures
        f.wf(),
        make_best ==> f.best_hash() == sb.header.hash,
        f.finalized_hash() == (if make_final {
            sb.header.hash
        } else {
            o.finalized_hash()
        }),
        forall|t: int| 0 <= t <= o.finalized_number ==> #[trigger] f.canonical@[t]
            == o.canonical@[t],
{
    lemma_commit_blocks(o, f, sb, ni, k, path, make_best, make_final);
    if make_best {
        lemma_commit_canonical_best(o, f, sb, ni, k, path, make_best, make_final);
        assert(f.canonical@[0] == f.blocks@[0].header.hash);
        if make_final {
            assert(f.finalized_hash() == sb.header.hash);
        } else {
            assert(f.finalized_hash() == o.finalized_hash());
        }
    } else {
        lemma_commit_canonical_stay(o, f, sb, ni, k, path, make_best, make_final);
        assert(f.canonical@[0] == f.blocks@[0].header.hash);
    }
    assert(f.wf());
}

} // verus!
