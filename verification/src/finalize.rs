//! The finalizer: takes a block identity and an optional justification,
//! instructs the backend to mark the block finalized, and hands back the
//! outcome for the one-shot result channel. The caller's task runs it off
//! the import path and sends the returned result exactly once.

use vstd::prelude::*;
use crate::backend::{has_hash, number_of, Backend};
use crate::types::{BackendError, Error};

verus! {

/// Parameters for one block finalization request, constructed per request
/// and consumed exactly once. The result channel and the backend handle
/// live with the task that runs the request.
pub struct FinalizeBlockParams {
    /// Hash of the block to finalize.
    pub hash: u64,
    /// Finalization justification, recorded by the backend when given.
    pub justification: Option<Vec<u8>>,
}

/// Finalizes a block in the backend with the given params. The returned
/// result is exactly what the requester's one-shot channel carries: `Ok`
/// when the backend finalized the block, otherwise the backend's error
/// mapped into the caller-facing taxonomy. Whatever the outcome, the
/// finalized pointer never moves backwards, and on an error the backend
/// is left exactly as it was.
pub fn finalize_block(backend: &mut Backend, params: FinalizeBlockParams) -> (r: Result<(), Error>)
    requires
        old(backend).wf(),
    ensures
        final(backend).wf(),
        final(backend).finalized_number >= old(backend).finalized_number,
        final(backend).blocks@ == old(backend).blocks@,
        final(backend).canonical@ == old(backend).canonical@,
        final(backend).best_number == old(backend).best_number,
        r is Err ==> *final(backend) == *old(backend),
        !has_hash(old(backend).blocks@, params.hash) ==> r == Err::<(), Error>(Error::Backend(
            BackendError::UnknownBlock,
        )),
        ({
            let n = number_of(old(backend).blocks@, params.hash);
            let canonical = n <= old(backend).best_number && old(backend).canonical@[n as int]
                == params.hash;
            &&& (has_hash(old(backend).blocks@, params.hash) && !canonical) ==> r == Err::<
                (),
                Error,
            >(Error::Backend(BackendError::NotCanonical))
            &&& (has_hash(old(backend).blocks@, params.hash) && canonical && n < old(
                backend,
            ).finalized_number) ==> r == Err::<(), Error>(Error::Backend(
                BackendError::AlreadyFinalized,
            ))
            &&& (has_hash(old(backend).blocks@, params.hash) && canonical && n >= old(
                backend,
            ).finalized_number) ==> {
                &&& r is Ok
                &&& final(backend).finalized_number == n
                &&& final(backend).finalized_hash() == params.hash
            }
        }),
{
    let FinalizeBlockParams { hash, justification } = params;
    match backend.finalize(hash, justification) {
        Ok(()) => Ok(()),
        Err(e) => Err(Error::Backend(e)),
    }
}

} // verus!
