//! Data model of the import pipeline: blocks, import parameters, results and
//! the error taxonomy.

use vstd::prelude::*;

verus! {

/// Provenance of a block submitted for import. Pure metadata: it never
/// changes what the importer decides, only how a caller may weigh the result.
#[derive(Clone, Copy, PartialEq, Eq, Structural, Debug)]
pub enum BlockOrigin {
    /// Authored by this node.
    Own,
    /// Read from a local file.
    File,
    /// Received from a network broadcast.
    NetworkBroadcast,
    /// Received during initial network synchronisation.
    NetworkInitialSync,
}

/// Policy that decides whether an imported block becomes the canonical head.
#[derive(Clone, Copy, PartialEq, Eq, Structural, Debug)]
pub enum ForkChoiceStrategy {
    /// The chain with the greatest block number wins; ties keep the
    /// incumbent head.
    LongestChain,
}

/// How much historical state the backend retains.
#[derive(Clone, Copy, PartialEq, Eq, Structural, Debug)]
pub enum PruningMode {
    /// Keep the state of every block ever imported.
    ArchiveAll,
}

/// Backend construction parameters. The cache fields are observability
/// knobs recorded at construction; the in-memory backend itself keeps no
/// hidden cache, which is exactly the configuration a cold-cache
/// measurement asks for.
#[derive(Clone, Copy, PartialEq, Eq, Structural, Debug)]
pub struct BackendConfig {
    pub state_cache_size: u64,
    pub state_cache_child_ratio: u64,
    pub pruning: PruningMode,
}

/// A system-generated or user-submitted unit of work inside a block.
#[derive(Clone, Copy, PartialEq, Eq, Structural, Debug)]
pub enum Extrinsic {
    /// A mandatory system extrinsic (timestamp, finality hint), identified
    /// by `kind` and carrying one payload word.
    Inherent { kind: u64, payload: u64 },
    /// A balance transfer signed by `from`, guarded by that account's nonce.
    Transfer { from: u64, to: u64, amount: u64, nonce: u64 },
}

/// One account of the ledger state.
#[derive(Clone, Copy, PartialEq, Eq, Structural, Debug)]
pub struct Account {
    pub id: u64,
    pub balance: u64,
    pub nonce: u64,
}

/// A block header: parent identity, height, the declared root of the state
/// after the block, and consensus digest items. `hash` is the block's
/// content address, computed once when the block is built.
#[derive(Clone, Debug)]
pub struct Header {
    pub hash: u64,
    pub parent_hash: u64,
    pub number: u64,
    pub state_root: u64,
    pub digest: Vec<u64>,
}

/// An immutable pair of header and ordered extrinsics.
#[derive(Clone, Debug)]
pub struct Block {
    pub header: Header,
    pub extrinsics: Vec<Extrinsic>,
}

/// The orthogonal outcome signals of a successful import, consumed by
/// upstream consensus logic. None of the flags implies another.
#[derive(Clone, Copy, PartialEq, Eq, Structural, Debug)]
pub struct ImportedAux {
    pub header_only: bool,
    pub clear_justification_requests: bool,
    pub needs_justification: bool,
    pub bad_justification: bool,
    pub needs_finality_proof: bool,
    pub is_new_best: bool,
}

/// Outcome of an import attempt.
#[derive(Clone, Copy, PartialEq, Eq, Structural, Debug)]
pub enum ImportResult {
    /// The block was written to the backend.
    Imported(ImportedAux),
    /// The block was already recorded and reprocessing was not forced.
    AlreadyInChain,
    /// The declared parent (or its state, where it is needed) is absent.
    UnknownParent,
    /// The header or the body is invalid against the parent.
    KnownBad,
}

/// Fatal import failures: the request is rejected and the backend is left
/// exactly as it was.
#[derive(Clone, Copy, PartialEq, Eq, Structural, Debug)]
pub enum ImportError {
    /// The declared state root differs from the root computed by executing
    /// the body.
    StateRootMismatch,
    /// The block, or the chain it extends, conflicts with an already
    /// finalized block.
    FinalizedConflict,
}

/// Backend-side failures, reported to the caller and never swallowed.
#[derive(Clone, Copy, PartialEq, Eq, Structural, Debug)]
pub enum BackendError {
    /// No block with the given hash is stored.
    UnknownBlock,
    /// The block exists but is not on the canonical chain.
    NotCanonical,
    /// The block lies strictly below the finalized head.
    AlreadyFinalized,
    /// The block is stored without a state snapshot.
    MissingState,
}

/// The caller-facing error taxonomy of the pipeline's edges: backend
/// failures, and block-construction failures that are fatal to the
/// request.
#[derive(Clone, Copy, PartialEq, Eq, Structural, Debug)]
pub enum Error {
    Backend(BackendError),
    Push(PushError),
}

/// The unit of work submitted to the importer.
pub struct BlockImportParams {
    /// Where the block came from.
    pub origin: BlockOrigin,
    /// The header as built.
    pub header: Header,
    /// Digest items produced after authorship; appended to the stored
    /// header's digest.
    pub post_digests: Vec<u64>,
    /// The ordered extrinsics, absent for a header-only import.
    pub body: Option<Vec<Extrinsic>>,
    /// A precomputed post-state; when supplied it is applied directly and
    /// the body is not re-executed.
    pub storage_changes: Option<Vec<Account>>,
    /// True only when the block arrives already known final; the importer
    /// then advances the finalized pointer as a side effect.
    pub finalized: bool,
    /// Justification bytes supplied with the block, if any.
    pub justification: Option<Vec<u8>>,
    /// Auxiliary key/value writes persisted alongside the block; `None`
    /// deletes the key.
    pub auxiliary: Vec<(u64, Option<u64>)>,
    /// Extension values keyed by hook identity, carried for
    /// consensus-specific import hooks layered above this importer.
    pub intermediates: Vec<(u64, u64)>,
    /// The fork-choice policy to apply.
    pub fork_choice: ForkChoiceStrategy,
    /// Permit import when the parent's state is absent.
    pub allow_missing_state: bool,
    /// Force reprocessing of an already-imported block.
    pub import_existing: bool,
}

/// A snapshot of the chain's pointers.
#[derive(Clone, Copy, PartialEq, Eq, Structural, Debug)]
pub struct ChainInfo {
    pub genesis_hash: u64,
    pub best_hash: u64,
    pub best_number: u64,
    pub finalized_hash: u64,
    pub finalized_number: u64,
}

/// How much the backend currently holds, for observability.
#[derive(Clone, Copy, PartialEq, Eq, Structural, Debug)]
pub struct UsageReport {
    pub blocks: u64,
    pub extrinsics: u64,
    pub state_entries: u64,
    pub aux_entries: u64,
}

/// Why the block builder rejected a push.
#[derive(Clone, Copy, PartialEq, Eq, Structural, Debug)]
pub enum PushError {
    /// Accepting the extrinsic would exceed the block's weight budget.
    /// Expected during construction: the caller stops pushing and builds.
    ResourcesExhausted,
    /// The extrinsic is invalid against the draft state.
    Validity(ValidityReason),
}

/// The specific validity failure of a rejected extrinsic.
#[derive(Clone, Copy, PartialEq, Eq, Structural, Debug)]
pub enum ValidityReason {
    /// The sending account does not exist.
    UnknownSigner,
    /// The extrinsic's nonce is not the sender's next nonce.
    BadNonce,
    /// The sender cannot cover the transferred amount.
    InsufficientBalance,
    /// The transfer would overflow the recipient's balance or the
    /// sender's nonce.
    Overflow,
    /// An inherent arrived after a user extrinsic; inherents come first.
    InherentAfterUser,
}

} // verus!
