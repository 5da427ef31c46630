//! The block builder: accumulates inherents and extrinsics into a draft
//! block against a known parent state, enforcing the block weight budget,
//! and builds an immutable block whose declared state root is the root of
//! the state its body computes.

use vstd::prelude::*;
use crate::backend::{block_index, has_hash, number_of, Backend};
use crate::ledger::{
    apply_body_spec, apply_extrinsic, block_hash, block_hash_spec, body_weight, clone_accounts,
    root_spec, state_root, xt_weight, xt_weight_exec,
};
use crate::types::{Account, BackendError, Block, Extrinsic, Header, PushError, ValidityReason};

verus! {

/// Whether a body holds user extrinsics yet. Inherents must all come
/// before the first user extrinsic.
pub open spec fn has_user_xt(xts: Seq<Extrinsic>) -> bool {
    exists|i: int| 0 <= i < xts.len() && !((#[trigger] xts[i]) is Inherent)
}

/// A draft block under construction against a fixed parent.
pub struct BlockBuilder {
    pub parent_hash: u64,
    pub parent_number: u64,
    pub state: Vec<Account>,
    pub extrinsics: Vec<Extrinsic>,
    pub weight: u64,
    pub max_weight: u64,
    pub parent_state: Ghost<Seq<Account>>,
}

impl BlockBuilder {
    /// The draft's invariant: its state is exactly the parent state with
    /// every accepted extrinsic applied, and the accumulated weight never
    /// exceeds the budget.
    pub open spec fn wf(&self) -> bool {
        &&& self.parent_number < u64::MAX
        &&& apply_body_spec(self.parent_state@, self.extrinsics@) == Some(self.state@)
        &&& body_weight(self.extrinsics@) == self.weight
        &&& self.weight <= self.max_weight
    }

    /// Opens a draft on top of the given parent block, whose state must
    /// be available in the backend.
    pub fn new_block(backend: &Backend, parent_hash: u64) -> (r: Result<BlockBuilder, BackendError>)
        requires
            backend.wf(),
        ensures
            !has_hash(backend.blocks@, parent_hash) ==> r == Err::<BlockBuilder, BackendError>(
                BackendError::UnknownBlock,
            ),
            (has_hash(backend.blocks@, parent_hash) && backend.blocks@[block_index(
                backend.blocks@,
                parent_hash,
            )].state is None) ==> r == Err::<BlockBuilder, BackendError>(BackendError::MissingState),
            (has_hash(backend.blocks@, parent_hash) && backend.blocks@[block_index(
                backend.blocks@,
                parent_hash,
            )].state is Some && number_of(backend.blocks@, parent_hash) < u64::MAX) ==> (
            r matches Ok(bb) && {
                &&& bb.wf()
                &&& bb.parent_hash == parent_hash
                &&& bb.parent_number == number_of(backend.blocks@, parent_hash)
                &&& bb.extrinsics@.len() == 0
                &&& bb.weight == 0
                &&& bb.max_weight == backend.max_weight
                &&& (backend.blocks@[block_index(backend.blocks@, parent_hash)].state
                    matches Some(ps) && bb.parent_state@ == ps@)
            }),
            (has_hash(backend.blocks@, parent_hash) && number_of(backend.blocks@, parent_hash)
                == u64::MAX) ==> r is Err,
    {
        let iopt = backend.find_block(parent_hash);
        match iopt {
            None => Err(BackendError::UnknownBlock),
            Some(i) => {
                let parent_number = backend.blocks[i].header.number;
                match &backend.blocks[i].state {
                    None => Err(BackendError::MissingState),
                    Some(ps) => {
                        if parent_number == u64::MAX {
                            return Err(BackendError::UnknownBlock);
                        }
                        let state = clone_accounts(ps);
                        Ok(BlockBuilder {
                            parent_hash,
                            parent_number,
                            parent_state: Ghost(state@),
                            state,
                            extrinsics: Vec::new(),
                            weight: 0,
                            max_weight: backend.max_weight,
                        })
                    }
                }
            }
        }
    }

    /// Pushes one extrinsic. `ResourcesExhausted` signals that the budget
    /// would be exceeded — the caller stops pushing and builds; it is not
    /// an error of the extrinsic. An inherent after a user extrinsic, and
    /// any extrinsic the draft state rejects, fail with the validity
    /// reason. On any failure the draft is left exactly as it was.
    pub fn push(&mut self, xt: Extrinsic) -> (r: Result<(), PushError>)
        requires
            old(self).wf(),
        ensures
            final(self).wf(),
            final(self).parent_hash == old(self).parent_hash,
            final(self).parent_number == old(self).parent_number,
            final(self).max_weight == old(self).max_weight,
            final(self).parent_state@ == old(self).parent_state@,
            r == Err::<(), PushError>(PushError::ResourcesExhausted) <==> old(self).weight
                + xt_weight(xt) > old(self).max_weight,
            (old(self).weight + xt_weight(xt) <= old(self).max_weight && xt is Inherent
                && has_user_xt(old(self).extrinsics@)) ==> r == Err::<(), PushError>(
                PushError::Validity(ValidityReason::InherentAfterUser),
            ),
            (old(self).weight + xt_weight(xt) <= old(self).max_weight && !(xt is Inherent
                && has_user_xt(old(self).extrinsics@))) ==> {
                &&& (r is Ok <==> crate::ledger::apply_extrinsic_spec(old(self).state@, xt)
                    is Some)
                &&& (r matches Err(e) ==> e is Validity)
            },
            r is Ok ==> {
                &&& final(self).extrinsics@ == old(self).extrinsics@.push(xt)
                &&& final(self).weight == old(self).weight + xt_weight(xt)
                &&& Some(final(self).state@) == crate::ledger::apply_extrinsic_spec(
                    old(self).state@,
                    xt,
                )
            },
            r is Err ==> final(self).extrinsics@ == old(self).extrinsics@
                && final(self).state@ == old(self).state@
                && final(self).weight == old(self).weight,
    {
        let w = xt_weight_exec(&xt);
        if w > self.max_weight - self.weight {
            return Err(PushError::ResourcesExhausted);
        }
        let is_inherent = match xt {
            Extrinsic::Inherent { .. } => true,
            Extrinsic::Transfer { .. } => false,
        };
        if is_inherent {
            let mut has_user = false;
            let mut i: usize = 0;
            while i < self.extrinsics.len()
                invariant
                    i <= self.extrinsics@.len(),
                    has_user == exists|j: int|
                        0 <= j < i && !((#[trigger] self.extrinsics@[j]) is Inherent),
                decreases self.extrinsics@.len() - i,
            {
                let user = match self.extrinsics[i] {
                    Extrinsic::Inherent { .. } => false,
                    Extrinsic::Transfer { .. } => true,
                };
                if user {
                    has_user = true;
                }
                i = i + 1;
            }
            if has_user {
                return Err(PushError::Validity(ValidityReason::InherentAfterUser));
            }
            proof {
                assert(!has_user_xt(self.extrinsics@));
            }
        }
        let ghost pre = *self;
        match apply_extrinsic(&mut self.state, &xt) {
            Err(reason) => {
                Err(PushError::Validity(reason))
            }
            Ok(()) => {
                self.extrinsics.push(xt);
                self.weight = self.weight + w;
                proof {
                    assert(self.extrinsics@.drop_last() =~= pre.extrinsics@);
                    assert(apply_body_spec(self.parent_state@, self.extrinsics@)
                        == crate::ledger::apply_extrinsic_spec(pre.state@, xt));
                }
                Ok(())
            }
        }
    }

    /// Finalizes the draft into an immutable block. The block's declared
    /// state root is the root its body computes from the parent state,
    /// its weight never exceeds the budget the draft was opened with, and
    /// its hash is the content address over header fields and body.
    pub fn build(self) -> (b: Block)
        requires
            self.wf(),
        ensures
            b.header.parent_hash == self.parent_hash,
            b.header.number == self.parent_number + 1,
            b.header.digest@.len() == 0,
            b.extrinsics@ == self.extrinsics@,
            apply_body_spec(self.parent_state@, b.extrinsics@) == Some(self.state@),
            b.header.state_root == root_spec(self.state@),
            body_weight(b.extrinsics@) <= self.max_weight,
            b.header.hash == block_hash_spec(
                self.parent_hash,
                (self.parent_number + 1) as u64,
                root_spec(self.state@),
                self.extrinsics@,
            ),
    {
        let root = state_root(&self.state);
        let number = self.parent_number + 1;
        let hash = block_hash(self.parent_hash, number, root, &self.extrinsics);
        Block {
            header: Header {
                hash,
                parent_hash: self.parent_hash,
                number,
                state_root: root,
                digest: Vec::new(),
            },
            extrinsics: self.extrinsics,
        }
    }
}

} // verus!
