use block_pipeline::backend::Backend;
use block_pipeline::builder::BlockBuilder;
use block_pipeline::finalize::{finalize_block, FinalizeBlockParams};
use block_pipeline::harness::{
    generate_block_import, new_test_ext, Test, BOB, CHARLIE, DOLLARS, FINALITY_TRACKER_INHERENT,
    TIMESTAMP_INHERENT,
};
use block_pipeline::import::import_block;
use block_pipeline::types::{
    Account, BackendConfig, BackendError, Block, BlockImportParams, BlockOrigin, Error, Extrinsic,
    ForkChoiceStrategy, ImportError, ImportResult, ImportedAux, PruningMode, PushError,
    ValidityReason,
};

fn bench_config() -> BackendConfig {
    BackendConfig {
        state_cache_size: 0,
        state_cache_child_ratio: 0,
        pruning: PruningMode::ArchiveAll,
    }
}

fn funded_backend() -> Backend {
    Backend::new(
        bench_config(),
        Test::new().maximum_block_weight,
        vec![Account { id: CHARLIE, balance: 10_000_000, nonce: 0 }],
    )
}

fn import_params(block: &Block) -> BlockImportParams {
    BlockImportParams {
        origin: BlockOrigin::NetworkBroadcast,
        header: block.header.clone(),
        post_digests: Vec::new(),
        body: Some(block.extrinsics.clone()),
        storage_changes: None,
        finalized: false,
        justification: None,
        auxiliary: Vec::new(),
        intermediates: Vec::new(),
        fork_choice: ForkChoiceStrategy::LongestChain,
        allow_missing_state: false,
        import_existing: false,
    }
}

fn all_clear_aux(is_new_best: bool) -> ImportedAux {
    ImportedAux {
        header_only: false,
        clear_justification_requests: false,
        needs_justification: false,
        bad_justification: false,
        needs_finality_proof: false,
        is_new_best,
    }
}

#[test]
fn end_to_end_import() {
    let mut backend = funded_backend();
    let params = Test::new();
    let block = generate_block_import(&backend, &params).expect("block generation failed");
    assert!(block.extrinsics.len() > 2);
    assert_eq!(
        block.extrinsics[0],
        Extrinsic::Inherent { kind: TIMESTAMP_INHERENT, payload: params.minimum_period }
    );
    assert_eq!(
        block.extrinsics[1],
        Extrinsic::Inherent { kind: FINALITY_TRACKER_INHERENT, payload: 0 }
    );
    let result = import_block(&mut backend, import_params(&block)).expect("import failed");
    assert_eq!(result, ImportResult::Imported(all_clear_aux(true)));
    assert_eq!(backend.chain_info().best_number, 1);
    assert_eq!(backend.chain_info().best_hash, block.header.hash);
}

#[test]
fn import_is_idempotent() {
    let mut backend = funded_backend();
    let block = generate_block_import(&backend, &Test::new()).unwrap();
    import_block(&mut backend, import_params(&block)).unwrap();
    let before_usage = backend.usage_info();
    let before_info = backend.chain_info();
    let second = import_block(&mut backend, import_params(&block)).unwrap();
    assert_eq!(second, ImportResult::AlreadyInChain);
    assert_eq!(backend.usage_info(), before_usage);
    assert_eq!(backend.chain_info(), before_info);
}

#[test]
fn unknown_parent_is_rejected_without_mutation() {
    let mut backend = funded_backend();
    let block = generate_block_import(&backend, &Test::new()).unwrap();
    let mut params = import_params(&block);
    params.header.parent_hash = params.header.parent_hash.wrapping_add(1);
    let before_usage = backend.usage_info();
    let result = import_block(&mut backend, params).unwrap();
    assert_eq!(result, ImportResult::UnknownParent);
    assert_eq!(backend.usage_info(), before_usage);
    assert!(!backend.has_block(block.header.hash));
}

#[test]
fn state_root_mismatch_is_atomic() {
    let mut backend = funded_backend();
    let block = generate_block_import(&backend, &Test::new()).unwrap();
    let mut params = import_params(&block);
    params.header.state_root = params.header.state_root.wrapping_add(1);
    let before_usage = backend.usage_info();
    let before_info = backend.chain_info();
    let result = import_block(&mut backend, params);
    assert_eq!(result, Err(ImportError::StateRootMismatch));
    assert_eq!(backend.usage_info(), before_usage);
    assert_eq!(backend.chain_info(), before_info);
    assert!(!backend.has_block(block.header.hash));
}

fn sibling_block(backend: &Backend, amount: u64) -> Block {
    let parent = backend.chain_info().best_hash;
    let mut builder = BlockBuilder::new_block(backend, parent).unwrap();
    builder
        .push(Extrinsic::Transfer { from: CHARLIE, to: BOB, amount, nonce: 0 })
        .unwrap();
    builder.build()
}

#[test]
fn fork_choice_prefers_first_sibling() {
    let mut backend = funded_backend();
    let winner = sibling_block(&backend, DOLLARS);
    let loser = sibling_block(&backend, 2 * DOLLARS);
    assert_ne!(winner.header.hash, loser.header.hash);

    let first = import_block(&mut backend, import_params(&winner)).unwrap();
    assert_eq!(first, ImportResult::Imported(all_clear_aux(true)));
    let second = import_block(&mut backend, import_params(&loser)).unwrap();
    assert_eq!(second, ImportResult::Imported(all_clear_aux(false)));
    assert_eq!(backend.chain_info().best_hash, winner.header.hash);
    assert_eq!(backend.chain_info().best_number, 1);
}

#[test]
fn finalization_is_monotonic() {
    let mut backend = funded_backend();
    let canonical = sibling_block(&backend, DOLLARS);
    let rival = sibling_block(&backend, 2 * DOLLARS);
    import_block(&mut backend, import_params(&canonical)).unwrap();
    import_block(&mut backend, import_params(&rival)).unwrap();

    assert_eq!(backend.finalize(canonical.header.hash, None), Ok(()));
    assert_eq!(backend.chain_info().finalized_number, 1);

    // Finalizing the non-canonical sibling at the same height must fail.
    assert_eq!(
        backend.finalize(rival.header.hash, None),
        Err(BackendError::NotCanonical)
    );
    // Importing a block that extends the rival fork conflicts with the
    // finalized block and must fail, leaving the head untouched.
    let mut child = BlockBuilder::new_block(&backend, rival.header.hash).unwrap();
    child
        .push(Extrinsic::Transfer { from: CHARLIE, to: BOB, amount: DOLLARS, nonce: 1 })
        .unwrap();
    let child_block = child.build();
    let result = import_block(&mut backend, import_params(&child_block));
    assert_eq!(result, Err(ImportError::FinalizedConflict));
    assert_eq!(backend.chain_info().best_hash, canonical.header.hash);
    assert_eq!(backend.chain_info().finalized_number, 1);
}

#[test]
fn finalizing_below_the_finalized_head_fails() {
    let mut backend = funded_backend();
    let block = generate_block_import(&backend, &Test::new()).unwrap();
    let genesis = backend.chain_info().genesis_hash;
    import_block(&mut backend, import_params(&block)).unwrap();
    assert_eq!(backend.finalize(block.header.hash, None), Ok(()));
    assert_eq!(
        backend.finalize(genesis, None),
        Err(BackendError::AlreadyFinalized)
    );
}

#[test]
fn resource_budget_truncates_the_block() {
    let backend = funded_backend();
    let genesis = backend.chain_info().best_hash;
    let mut builder = BlockBuilder::new_block(&backend, genesis).unwrap();
    let mut accepted: u64 = 0;
    let mut exhausted = false;
    for nonce in 0..1000u64 {
        match builder.push(Extrinsic::Transfer {
            from: CHARLIE,
            to: BOB,
            amount: DOLLARS,
            nonce,
        }) {
            Ok(()) => accepted += 1,
            Err(PushError::ResourcesExhausted) => {
                exhausted = true;
                break;
            }
            Err(e) => panic!("unexpected push error: {:?}", e),
        }
    }
    assert!(exhausted);
    // Weight budget 1024 with transfers of weight 7: exactly 146 fit.
    assert_eq!(accepted, 146);
    let block = builder.build();
    assert_eq!(block.extrinsics.len(), 146);

    // Re-executing the built block never exceeds the ceiling: the import
    // runs the same weight check and accepts it.
    let mut backend = backend;
    let result = import_block(&mut backend, import_params(&block)).unwrap();
    assert_eq!(result, ImportResult::Imported(all_clear_aux(true)));
}

#[test]
fn finalize_unknown_block_reports_on_the_channel() {
    let mut backend = funded_backend();
    let before = backend.chain_info();
    let params = FinalizeBlockParams { hash: 0xdead_beef, justification: None };
    let delivered = finalize_block(&mut backend, params);
    assert_eq!(delivered, Err(Error::Backend(BackendError::UnknownBlock)));
    assert_eq!(backend.chain_info(), before);
}

#[test]
fn finalize_block_reports_success() {
    let mut backend = funded_backend();
    let block = generate_block_import(&backend, &Test::new()).unwrap();
    import_block(&mut backend, import_params(&block)).unwrap();
    let params = FinalizeBlockParams { hash: block.header.hash, justification: Some(vec![1, 2]) };
    assert_eq!(finalize_block(&mut backend, params), Ok(()));
    assert_eq!(backend.chain_info().finalized_hash, block.header.hash);
    assert_eq!(backend.chain_info().finalized_number, 1);
}

#[test]
fn header_only_import_sets_the_flag() {
    let mut backend = funded_backend();
    let block = generate_block_import(&backend, &Test::new()).unwrap();
    let mut params = import_params(&block);
    params.body = None;
    let result = import_block(&mut backend, params).unwrap();
    match result {
        ImportResult::Imported(aux) => {
            assert!(aux.header_only);
            assert!(aux.is_new_best);
        }
        other => panic!("unexpected result: {:?}", other),
    }
}

#[test]
fn missing_parent_state_needs_permission() {
    let mut backend = funded_backend();
    let block = generate_block_import(&backend, &Test::new()).unwrap();
    let mut header_only = import_params(&block);
    header_only.body = None;
    import_block(&mut backend, header_only).unwrap();

    // A child with a body cannot execute against the absent state.
    let child = Block {
        header: block_pipeline::types::Header {
            hash: 0x51b1,
            parent_hash: block.header.hash,
            number: 2,
            state_root: 0,
            digest: Vec::new(),
        },
        extrinsics: Vec::new(),
    };
    let refused = import_block(&mut backend, import_params(&child)).unwrap();
    assert_eq!(refused, ImportResult::UnknownParent);

    let mut permitted = import_params(&child);
    permitted.allow_missing_state = true;
    let accepted = import_block(&mut backend, permitted).unwrap();
    match accepted {
        ImportResult::Imported(aux) => assert!(aux.is_new_best),
        other => panic!("unexpected result: {:?}", other),
    }
    assert_eq!(backend.chain_info().best_number, 2);
}

#[test]
fn auxiliary_writes_are_applied_in_order() {
    let mut backend = funded_backend();
    let block = generate_block_import(&backend, &Test::new()).unwrap();
    let mut params = import_params(&block);
    params.auxiliary = vec![(1, Some(7)), (2, Some(9)), (1, None), (2, Some(11))];
    import_block(&mut backend, params).unwrap();
    assert_eq!(backend.aux_get(1), None);
    assert_eq!(backend.aux_get(2), Some(11));
    assert_eq!(backend.usage_info().aux_entries, 1);
}

#[test]
fn empty_justification_is_flagged_bad() {
    let mut backend = funded_backend();
    let block = generate_block_import(&backend, &Test::new()).unwrap();
    let mut params = import_params(&block);
    params.justification = Some(Vec::new());
    match import_block(&mut backend, params).unwrap() {
        ImportResult::Imported(aux) => {
            assert!(aux.bad_justification);
            assert!(aux.is_new_best);
        }
        other => panic!("unexpected result: {:?}", other),
    }
}

#[test]
fn bad_header_numbers_are_known_bad() {
    let mut backend = funded_backend();
    let block = generate_block_import(&backend, &Test::new()).unwrap();
    let mut zero = import_params(&block);
    zero.header.number = 0;
    assert_eq!(import_block(&mut backend, zero).unwrap(), ImportResult::KnownBad);
    let mut skipped = import_params(&block);
    skipped.header.number = 5;
    assert_eq!(import_block(&mut backend, skipped).unwrap(), ImportResult::KnownBad);
}

#[test]
fn builder_rejects_invalid_extrinsics() {
    let backend = funded_backend();
    let genesis = backend.chain_info().best_hash;
    let mut builder = BlockBuilder::new_block(&backend, genesis).unwrap();
    assert_eq!(
        builder.push(Extrinsic::Transfer { from: 77, to: BOB, amount: 1, nonce: 0 }),
        Err(PushError::Validity(ValidityReason::UnknownSigner))
    );
    assert_eq!(
        builder.push(Extrinsic::Transfer { from: CHARLIE, to: BOB, amount: 1, nonce: 9 }),
        Err(PushError::Validity(ValidityReason::BadNonce))
    );
    assert_eq!(
        builder.push(Extrinsic::Transfer {
            from: CHARLIE,
            to: BOB,
            amount: u64::MAX,
            nonce: 0
        }),
        Err(PushError::Validity(ValidityReason::InsufficientBalance))
    );
    builder
        .push(Extrinsic::Transfer { from: CHARLIE, to: BOB, amount: 1, nonce: 0 })
        .unwrap();
    assert_eq!(
        builder.push(Extrinsic::Inherent { kind: TIMESTAMP_INHERENT, payload: 1 }),
        Err(PushError::Validity(ValidityReason::InherentAfterUser))
    );
}

#[test]
fn new_test_ext_provisions_the_authorities() {
    let backend = new_test_ext(vec![1, 2, 2, 3]);
    let info = backend.chain_info();
    assert_eq!(info.best_number, 0);
    assert_eq!(info.finalized_number, 0);
    assert_eq!(info.best_hash, info.genesis_hash);
    let usage = backend.usage_info();
    assert_eq!(usage.blocks, 1);
    assert_eq!(usage.state_entries, 3);
    let genesis_state = backend.state_at(info.genesis_hash).unwrap();
    assert!(genesis_state.iter().all(|a| a.balance == 1 && a.nonce == 0));
}

#[test]
fn usage_info_counts_stored_data() {
    let mut backend = funded_backend();
    let block = generate_block_import(&backend, &Test::new()).unwrap();
    let body_len = block.extrinsics.len() as u64;
    import_block(&mut backend, import_params(&block)).unwrap();
    let usage = backend.usage_info();
    assert_eq!(usage.blocks, 2);
    assert_eq!(usage.extrinsics, body_len);
    // Genesis holds one account; the imported block's state holds
    // Charlie's account and the created recipient.
    assert_eq!(usage.state_entries, 1 + 2);
}

#[test]
fn import_with_finality_proof_advances_the_finalized_pointer() {
    let mut backend = funded_backend();
    let block = generate_block_import(&backend, &Test::new()).unwrap();
    let mut params = import_params(&block);
    params.finalized = true;
    match import_block(&mut backend, params).unwrap() {
        ImportResult::Imported(aux) => assert!(aux.is_new_best),
        other => panic!("unexpected result: {:?}", other),
    }
    assert_eq!(backend.chain_info().finalized_hash, block.header.hash);
    assert_eq!(backend.chain_info().finalized_number, 1);
}
