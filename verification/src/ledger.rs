//! The ledger model: how extrinsics transform account state, what an
//! extrinsic weighs, and the deterministic digests over state and blocks.

use vstd::prelude::*;
use crate::types::{Account, Extrinsic};

verus! {

/// Weight charged for one inherent.
pub const INHERENT_WEIGHT: u64 = 2;
/// Weight charged for one transfer.
pub const TRANSFER_WEIGHT: u64 = 7;

pub open spec fn xt_weight(xt: Extrinsic) -> u64 {
    match xt {
        Extrinsic::Inherent { .. } => INHERENT_WEIGHT,
        Extrinsic::Transfer { .. } => TRANSFER_WEIGHT,
    }
}

/// Total weight of a body, as an unbounded integer.
pub open spec fn body_weight(xts: Seq<Extrinsic>) -> int
    decreases xts.len(),
{
    if xts.len() == 0 {
        0
    } else {
        body_weight(xts.drop_last()) + xt_weight(xts.last())
    }
}

/// Index of the first account with the given id at or after position `i`,
/// or -1 when there is none.
pub open spec fn acct_index_from(st: Seq<Account>, id: u64, i: int) -> int
    decreases st.len() - i,
{
    if i < 0 || i >= st.len() {
        -1
    } else if st[i].id == id {
        i
    } else {
        acct_index_from(st, id, i + 1)
    }
}

/// Index of the first account with the given id, or -1.
pub open spec fn acct_index(st: Seq<Account>, id: u64) -> int {
    acct_index_from(st, id, 0)
}

/// What one extrinsic does to the state: `None` when it is invalid.
/// Inherents carry data for the runtime's bookkeeping and leave accounts
/// unchanged; a transfer moves `amount` from `from` to `to`, consumes the
/// sender's next nonce, and creates the recipient when it is absent.
pub open spec fn apply_extrinsic_spec(st: Seq<Account>, xt: Extrinsic) -> Option<Seq<Account>> {
    match xt {
        Extrinsic::Inherent { .. } => Some(st),
        Extrinsic::Transfer { from, to, amount, nonce } => {
            let i = acct_index(st, from);
            if i < 0 {
                None
            } else if st[i].nonce != nonce || st[i].nonce == u64::MAX || st[i].balance < amount {
                None
            } else {
                let debited = Account {
                    id: from,
                    balance: (st[i].balance - amount) as u64,
                    nonce: (st[i].nonce + 1) as u64,
                };
                if to == from {
                    Some(st.update(i, Account { id: from, balance: st[i].balance, nonce: (st[i].nonce + 1) as u64 }))
                } else {
                    let j = acct_index(st, to);
                    if j < 0 {
                        Some(st.update(i, debited).push(Account { id: to, balance: amount, nonce: 0 }))
                    } else if st[j].balance + amount > u64::MAX {
                        None
                    } else {
                        Some(st.update(i, debited).update(j, Account {
                            id: to,
                            balance: (st[j].balance + amount) as u64,
                            nonce: st[j].nonce,
                        }))
                    }
                }
            }
        }
    }
}

/// The state after a whole body, or `None` as soon as one extrinsic is
/// invalid.
pub open spec fn apply_body_spec(st: Seq<Account>, xts: Seq<Extrinsic>) -> Option<Seq<Account>>
    decreases xts.len(),
{
    if xts.len() == 0 {
        Some(st)
    } else {
        match apply_body_spec(st, xts.drop_last()) {
            Some(mid) => apply_extrinsic_spec(mid, xts.last()),
            None => None,
        }
    }
}

/// One mixing step of the digests: multiply-and-add, reduced mod 2^64.
pub open spec fn mix_spec(r: u64, x: u64) -> u64 {
    (((r as int) * 31 + (x as int)) % 0x1_0000_0000_0000_0000) as u64
}

pub open spec fn mix_acct_spec(r: u64, a: Account) -> u64 {
    mix_spec(mix_spec(mix_spec(r, a.id), a.balance), a.nonce)
}

/// Deterministic digest of a state: a left fold of the accounts in order.
pub open spec fn root_spec(st: Seq<Account>) -> u64
    decreases st.len(),
{
    if st.len() == 0 {
        17
    } else {
        mix_acct_spec(root_spec(st.drop_last()), st.last())
    }
}

pub open spec fn mix_xt_spec(r: u64, xt: Extrinsic) -> u64 {
    match xt {
        Extrinsic::Inherent { kind, payload } => mix_spec(mix_spec(mix_spec(r, 1), kind), payload),
        Extrinsic::Transfer { from, to, amount, nonce } => mix_spec(
            mix_spec(mix_spec(mix_spec(mix_spec(r, 2), from), to), amount),
            nonce,
        ),
    }
}

pub open spec fn fold_xts_spec(r: u64, xts: Seq<Extrinsic>) -> u64
    decreases xts.len(),
{
    if xts.len() == 0 {
        r
    } else {
        mix_xt_spec(fold_xts_spec(r, xts.drop_last()), xts.last())
    }
}

/// Content address of a block: a digest over the header fields and the
/// body. It stands in for the cryptographic hash of the full system.
pub open spec fn block_hash_spec(parent: u64, number: u64, state_root: u64, xts: Seq<Extrinsic>) -> u64 {
    fold_xts_spec(mix_spec(mix_spec(mix_spec(19, parent), number), state_root), xts)
}

pub fn mix(r: u64, x: u64) -> (out: u64)
    ensures
        out == mix_spec(r, x),
{
    let t: u128 = (r as u128) * 31 + (x as u128);
    (t % 0x1_0000_0000_0000_0000u128) as u64
}

fn mix_acct(r: u64, a: &Account) -> (out: u64)
    ensures
        out == mix_acct_spec(r, *a),
{
    mix(mix(mix(r, a.id), a.balance), a.nonce)
}

fn mix_xt(r: u64, xt: &Extrinsic) -> (out: u64)
    ensures
        out == mix_xt_spec(r, *xt),
{
    match *xt {
        Extrinsic::Inherent { kind, payload } => mix(mix(mix(r, 1), kind), payload),
        Extrinsic::Transfer { from, to, amount, nonce } => mix(
            mix(mix(mix(mix(r, 2), from), to), amount),
            nonce,
        ),
    }
}

/// Digest of a state snapshot.
pub fn state_root(st: &Vec<Account>) -> (out: u64)
    ensures
        out == root_spec(st@),
{
    let mut r: u64 = 17;
    let mut i: usize = 0;
    while i < st.len()
        invariant
            i <= st.len(),
            r == root_spec(st@.take(i as int)),
        decreases st.len() - i,
    {
        r = mix_acct(r, &st[i]);
        proof {
            assert(st@.take(i + 1).drop_last() =~= st@.take(i as int));
            assert(st@.take(i + 1).last() == st@[i as int]);
        }
        i = i + 1;
    }
    proof {
        assert(st@.take(st@.len() as int) =~= st@);
    }
    r
}

/// Content address of a block with the given header fields and body.
pub fn block_hash(parent: u64, number: u64, state_root_value: u64, xts: &Vec<Extrinsic>) -> (out: u64)
    ensures
        out == block_hash_spec(parent, number, state_root_value, xts@),
{
    let mut r: u64 = mix(mix(mix(19, parent), number), state_root_value);
    let mut i: usize = 0;
    while i < xts.len()
        invariant
            i <= xts.len(),
            r == fold_xts_spec(
                mix_spec(mix_spec(mix_spec(19, parent), number), state_root_value),
                xts@.take(i as int),
            ),
        decreases xts.len() - i,
    {
        r = mix_xt(r, &xts[i]);
        proof {
            assert(xts@.take(i + 1).drop_last() =~= xts@.take(i as int));
            assert(xts@.take(i + 1).last() == xts@[i as int]);
        }
        i = i + 1;
    }
    proof {
        assert(xts@.take(xts@.len() as int) =~= xts@);
    }
    r
}

/// First account with the given id.
pub fn find_account(st: &Vec<Account>, id: u64) -> (r: Option<usize>)
    ensures
        match r {
            Some(i) => acct_index(st@, id) == i && i < st.len() && st@[i as int].id == id,
            None => acct_index(st@, id) == -1,
        },
{
    let mut i: usize = 0;
    while i < st.len()
        invariant
            i <= st.len(),
            acct_index(st@, id) == acct_index_from(st@, id, i as int),
        decreases st.len() - i,
    {
        if st[i].id == id {
            return Some(i);
        }
        i = i + 1;
    }
    None
}

/// A copy of a state snapshot.
pub fn clone_accounts(st: &Vec<Account>) -> (r: Vec<Account>)
    ensures
        r@ == st@,
{
    let mut out: Vec<Account> = Vec::new();
    let mut i: usize = 0;
    while i < st.len()
        invariant
            i <= st.len(),
            out@ == st@.take(i as int),
        decreases st.len() - i,
    {
        out.push(st[i]);
        proof {
            assert(st@.take(i + 1) =~= st@.take(i as int).push(st@[i as int]));
        }
        i = i + 1;
    }
    proof {
        assert(st@.take(st@.len() as int) =~= st@);
    }
    out
}

/// Applies one extrinsic in place. Returns the validity failure instead of
/// the new state when the extrinsic is rejected; the state is then left
/// unchanged.
pub fn apply_extrinsic(st: &mut Vec<Account>, xt: &Extrinsic) -> (r: Result<(), crate::types::ValidityReason>)
    ensures
        r is Ok <==> apply_extrinsic_spec(old(st)@, *xt) is Some,
        r is Ok ==> Some(final(st)@) == apply_extrinsic_spec(old(st)@, *xt),
        r is Err ==> final(st)@ == old(st)@,
{
    match *xt {
        Extrinsic::Inherent { .. } => Ok(()),
        Extrinsic::Transfer { from, to, amount, nonce } => {
            let iopt = find_account(st, from);
            match iopt {
                None => Err(crate::types::ValidityReason::UnknownSigner),
                Some(i) => {
                    let a = st[i];
                    if a.nonce != nonce {
                        Err(crate::types::ValidityReason::BadNonce)
                    } else if a.nonce == u64::MAX {
                        Err(crate::types::ValidityReason::Overflow)
                    } else if a.balance < amount {
                        Err(crate::types::ValidityReason::InsufficientBalance)
                    } else if to == from {
                        st.set(i, Account { id: from, balance: a.balance, nonce: a.nonce + 1 });
                        Ok(())
                    } else {
                        let debited = Account { id: from, balance: a.balance - amount, nonce: a.nonce + 1 };
                        let jopt = find_account(st, to);
                        match jopt {
                            None => {
                                st.set(i, debited);
                                st.push(Account { id: to, balance: amount, nonce: 0 });
                                Ok(())
                            }
                            Some(j) => {
                                let b = st[j];
                                if amount > u64::MAX - b.balance {
                                    Err(crate::types::ValidityReason::Overflow)
                                } else {
                                    st.set(i, debited);
                                    st.set(j, Account { id: to, balance: b.balance + amount, nonce: b.nonce });
                                    Ok(())
                                }
                            }
                        }
                    }
                }
            }
        }
    }
}

/// What a first-occurrence index means: the account there carries the
/// id, everything before it does not, and a negative result says the id
/// is absent altogether.
pub proof fn lemma_acct_index_props(st: Seq<Account>, id: u64, i: int)
    requires
        0 <= i,
    ensures
        ({
            let r = acct_index_from(st, id, i);
            &&& (r >= 0 ==> i <= r < st.len() && st[r].id == id && (forall|q: int|
                i <= q < r ==> st[q].id != id))
            &&& (r < 0 ==> r == -1 && (forall|q: int| i <= q < st.len() ==> st[q].id != id))
        }),
    decreases st.len() - i,
{
    if i < st.len() && st[i].id != id {
        lemma_acct_index_props(st, id, i + 1);
    }
}

/// Weight charged for one extrinsic.
pub fn xt_weight_exec(xt: &Extrinsic) -> (w: u64)
    ensures
        w == xt_weight(*xt),
{
    match *xt {
        Extrinsic::Inherent { .. } => INHERENT_WEIGHT,
        Extrinsic::Transfer { .. } => TRANSFER_WEIGHT,
    }
}

/// A body's weight never shrinks when more extrinsics follow.
pub proof fn lemma_body_weight_prefix(xts: Seq<Extrinsic>, i: int)
    requires
        0 <= i <= xts.len(),
    ensures
        body_weight(xts.take(i)) <= body_weight(xts),
    decreases xts.len() - i,
{
    if i < xts.len() {
        assert(xts.take(i + 1).drop_last() =~= xts.take(i));
        assert(xts.take(i + 1).last() == xts[i]);
        lemma_body_weight_prefix(xts, i + 1);
    } else {
        assert(xts.take(i) =~= xts);
    }
}

/// Once a prefix of the body is invalid, the whole body is.
pub proof fn lemma_apply_body_prefix_none(st: Seq<Account>, xts: Seq<Extrinsic>, i: int)
    requires
        0 <= i <= xts.len(),
        apply_body_spec(st, xts.take(i)) is None,
    ensures
        apply_body_spec(st, xts) is None,
    decreases xts.len() - i,
{
    if i < xts.len() {
        assert(xts.take(i + 1).drop_last() =~= xts.take(i));
        lemma_apply_body_prefix_none(st, xts, i + 1);
    } else {
        assert(xts.take(i) =~= xts);
    }
}

/// Executes a body against a copy of the parent state, enforcing the
/// weight ceiling. Returns the post-state exactly when every extrinsic is
/// valid and the total weight stays within the ceiling.
#[verifier::loop_isolation(false)]
pub fn execute_body(st: Vec<Account>, xts: &Vec<Extrinsic>, max_weight: u64) -> (r: Option<Vec<Account>>)
    ensures
        r is Some <==> (apply_body_spec(st@, xts@) is Some && body_weight(xts@) <= max_weight),
        r matches Some(out) ==> apply_body_spec(st@, xts@) == Some(out@),
{
    let ghost st0 = st@;
    let mut cur = st;
    let mut wsum: u64 = 0;
    let mut i: usize = 0;
    while i < xts.len()
        invariant
            i <= xts.len(),
            apply_body_spec(st0, xts@.take(i as int)) == Some(cur@),
            wsum == body_weight(xts@.take(i as int)),
            wsum <= max_weight,
        decreases xts.len() - i,
    {
        let w = xt_weight_exec(&xts[i]);
        proof {
            assert(xts@.take(i + 1).drop_last() =~= xts@.take(i as int));
            assert(xts@.take(i + 1).last() == xts@[i as int]);
        }
        if w > max_weight - wsum {
            proof {
                assert(body_weight(xts@.take(i + 1)) == body_weight(xts@.take(i as int))
                    + xt_weight(xts@[i as int]));
                lemma_body_weight_prefix(xts@, i + 1);
                assert(body_weight(xts@) >= body_weight(xts@.take(i + 1)));
                assert(body_weight(xts@) > max_weight);
            }
            return None;
        }
        match apply_extrinsic(&mut cur, &xts[i]) {
            Ok(()) => {}
            Err(_) => {
                proof {
                    assert(apply_body_spec(st0, xts@.take(i + 1)) is None);
                    lemma_apply_body_prefix_none(st0, xts@, i + 1);
                    assert(apply_body_spec(st0, xts@) is None);
                }
                return None;
            }
        }
        wsum = wsum + w;
        i = i + 1;
    }
    proof {
        assert(xts@.take(xts@.len() as int) =~= xts@);
    }
    Some(cur)
}

} // verus!
