use kona_derive::builder::PipelineBuilder;
use kona_derive::pipeline::{Action, Event, PipelineState, TraversalMode};
use kona_derive::types::{
    BlockRef, EpochRef, L2SafeHead, PayloadAttributes, PipelineBuildError, RollupConfig, Signal,
};

fn push_be(out: &mut Vec<u8>, bytes: &[u8]) {
    out.extend_from_slice(bytes);
}

fn frame_bytes(channel_id: u64, number: u16, payload: &[u8], is_last: bool) -> Vec<u8> {
    let mut out = Vec::new();
    push_be(&mut out, &channel_id.to_be_bytes());
    push_be(&mut out, &number.to_be_bytes());
    push_be(&mut out, &(payload.len() as u32).to_be_bytes());
    out.extend_from_slice(payload);
    out.push(if is_last { 1 } else { 0 });
    out
}

fn singular_record(epoch_number: u64, epoch_hash: u64, timestamp: u64, txs: &[&[u8]]) -> Vec<u8> {
    let mut out = vec![0u8];
    push_be(&mut out, &epoch_number.to_be_bytes());
    push_be(&mut out, &epoch_hash.to_be_bytes());
    push_be(&mut out, &timestamp.to_be_bytes());
    push_be(&mut out, &(txs.len() as u32).to_be_bytes());
    for tx in txs {
        push_be(&mut out, &(tx.len() as u32).to_be_bytes());
        out.extend_from_slice(tx);
    }
    out
}

fn test_config() -> RollupConfig {
    RollupConfig {
        chain_id: 10,
        genesis_l1: BlockRef { hash: 990, number: 99, timestamp: 0, parent_hash: 989 },
        genesis_l2: L2SafeHead { number: 0, timestamp: 1000, epoch_number: 99 },
        l2_block_time: 2,
        max_channel_duration: 10,
        max_sequencer_drift: 100,
        max_channel_payload: 1 << 20,
        da_retry_budget: 3,
        fee_recipient: 0x42,
        gas_limit: 30_000_000,
    }
}

fn origin99() -> BlockRef {
    BlockRef { hash: 990, number: 99, timestamp: 0, parent_hash: 989 }
}

fn block(number: u64, hash: u64, parent_hash: u64) -> BlockRef {
    BlockRef { hash, number, timestamp: number * 12, parent_hash }
}

/// L1 blocks 100..102: one two-frame channel spanning 100 and 101 carrying
/// one batch, and an empty block 102 — exactly one batch-derived attributes
/// value and one deposits-only value for block 102's epoch advance.
#[test]
fn two_frame_channel_and_empty_block() {
    let cfg = test_config();
    let mut p = PipelineState::new(cfg, TraversalMode::Polling, origin99());
    let b100 = block(100, 1000, 990);
    let b101 = block(101, 1010, 1000);
    let b102 = block(102, 1020, 1010);

    let seq_tx: &[u8] = &[1, 2, 3];
    let raw = singular_record(100, 1000, 1002, &[seq_tx]);
    let payload = miniz_oxide::deflate::compress_to_vec_zlib(&raw, 6);
    let half = payload.len() / 2;
    let frame0 = frame_bytes(7, 0, &payload[..half], false);
    let frame1 = frame_bytes(7, 1, &payload[half..], true);

    assert_eq!(p.advance(Event::Resume), Action::FetchBlock { number: 100 });
    assert_eq!(p.advance(Event::Block { block: b100 }), Action::FetchData { block: b100 });
    assert_eq!(p.advance(Event::Data { data: frame0 }), Action::FetchBlock { number: 101 });
    assert_eq!(p.advance(Event::Block { block: b101 }), Action::FetchData { block: b101 });
    assert_eq!(
        p.advance(Event::Data { data: frame1 }),
        Action::FetchDeposits { epoch: EpochRef { number: 100, hash: 1000 } }
    );
    let dep: Vec<u8> = vec![126, 9];
    let a = p.advance(Event::Deposits { transactions: vec![dep.clone()] });
    assert_eq!(
        a,
        Action::Yield {
            attributes: PayloadAttributes {
                timestamp: 1002,
                prev_randao: 1000,
                fee_recipient: 0x42,
                gas_limit: 30_000_000,
                epoch_number: 100,
                epoch_hash: 1000,
                transactions: vec![dep, vec![1, 2, 3]],
                no_tx_pool: true,
                deposits_only: false,
            }
        }
    );
    assert_eq!(p.advance(Event::Resume), Action::FetchBlock { number: 102 });
    assert_eq!(p.advance(Event::Block { block: b102 }), Action::FetchData { block: b102 });
    assert_eq!(
        p.advance(Event::NoData),
        Action::FetchDeposits { epoch: EpochRef { number: 102, hash: 1020 } }
    );
    let a2 = p.advance(Event::Deposits { transactions: vec![] });
    assert_eq!(
        a2,
        Action::Yield {
            attributes: PayloadAttributes {
                timestamp: 1004,
                prev_randao: 1020,
                fee_recipient: 0x42,
                gas_limit: 30_000_000,
                epoch_number: 102,
                epoch_hash: 1020,
                transactions: vec![],
                no_tx_pool: true,
                deposits_only: true,
            }
        }
    );
    assert_eq!(p.safe_head.number, 2);
    assert_eq!(p.safe_head.epoch_number, 102);
}

fn span_record(epoch_number: u64, epoch_hash: u64, start: u64, blocks: &[&[&[u8]]]) -> Vec<u8> {
    let mut out = vec![1u8];
    push_be(&mut out, &epoch_number.to_be_bytes());
    push_be(&mut out, &epoch_hash.to_be_bytes());
    push_be(&mut out, &start.to_be_bytes());
    push_be(&mut out, &(blocks.len() as u32).to_be_bytes());
    for txs in blocks {
        push_be(&mut out, &(txs.len() as u32).to_be_bytes());
        for tx in *txs {
            push_be(&mut out, &(tx.len() as u32).to_be_bytes());
            out.extend_from_slice(tx);
        }
    }
    out
}

/// A span batch covering two L2 blocks yields two attributes values, one
/// per pull, in timestamp order.
#[test]
fn span_batch_yields_one_slot_per_pull() {
    let cfg = test_config();
    let mut p = PipelineState::new(cfg, TraversalMode::Polling, origin99());
    let b100 = block(100, 1000, 990);
    let blk0: &[&[u8]] = &[&[1u8]];
    let blk1: &[&[u8]] = &[&[2u8]];
    let raw = span_record(100, 1000, 1002, &[blk0, blk1]);
    let payload = miniz_oxide::deflate::compress_to_vec_zlib(&raw, 6);
    let frame = frame_bytes(6, 0, &payload, true);
    p.advance(Event::Resume);
    p.advance(Event::Block { block: b100 });
    assert_eq!(
        p.advance(Event::Data { data: frame }),
        Action::FetchDeposits { epoch: EpochRef { number: 100, hash: 1000 } }
    );
    match p.advance(Event::Deposits { transactions: vec![] }) {
        Action::Yield { attributes } => {
            assert_eq!(attributes.timestamp, 1002);
            assert_eq!(attributes.transactions, vec![vec![1u8]]);
        }
        other => panic!("expected the first slot's attributes, got {:?}", other),
    }
    assert_eq!(
        p.advance(Event::Resume),
        Action::FetchDeposits { epoch: EpochRef { number: 100, hash: 1000 } }
    );
    match p.advance(Event::Deposits { transactions: vec![] }) {
        Action::Yield { attributes } => {
            assert_eq!(attributes.timestamp, 1004);
            assert_eq!(attributes.transactions, vec![vec![2u8]]);
        }
        other => panic!("expected the second slot's attributes, got {:?}", other),
    }
}

/// Replaying the same events through two freshly built pipelines yields the
/// identical action sequence.
#[test]
fn replay_is_deterministic() {
    let cfg = test_config();
    let b100 = block(100, 1000, 990);
    let raw = singular_record(100, 1000, 1002, &[&[1u8][..]]);
    let payload = miniz_oxide::deflate::compress_to_vec_zlib(&raw, 6);
    let frame = frame_bytes(3, 0, &payload, true);
    let events = || {
        vec![
            Event::Resume,
            Event::Block { block: b100 },
            Event::Data { data: frame.clone() },
            Event::Deposits { transactions: vec![vec![126]] },
            Event::Resume,
        ]
    };
    let mut p1 = PipelineState::new(cfg, TraversalMode::Polling, origin99());
    let mut p2 = PipelineState::new(cfg, TraversalMode::Polling, origin99());
    let out1: Vec<Action> = events().into_iter().map(|e| p1.advance(e)).collect();
    let out2: Vec<Action> = events().into_iter().map(|e| p2.advance(e)).collect();
    assert_eq!(out1, out2);
}

/// A batch whose epoch lies beyond the sequencer drift window never reaches
/// the output: the pipeline asks for the next block instead of deposits.
#[test]
fn drifted_batch_is_rejected() {
    let cfg = test_config();
    let mut p = PipelineState::new(cfg, TraversalMode::Polling, origin99());
    let b100 = block(100, 1000, 990);
    // epoch 201 > origin 100 + max drift 100
    let raw = singular_record(201, 2010, 1002, &[&[1u8][..]]);
    let payload = miniz_oxide::deflate::compress_to_vec_zlib(&raw, 6);
    let frame = frame_bytes(4, 0, &payload, true);
    p.advance(Event::Resume);
    p.advance(Event::Block { block: b100 });
    assert_eq!(p.advance(Event::Data { data: frame }), Action::FetchBlock { number: 101 });
    assert!(p.batches.is_empty());
}

/// After a reset, nothing buffered before it survives: the pipeline starts
/// over at the new origin.
#[test]
fn reset_discards_buffers() {
    let cfg = test_config();
    let mut p = PipelineState::new(cfg, TraversalMode::Polling, origin99());
    let b100 = block(100, 1000, 990);
    let frame = frame_bytes(7, 0, &[9, 9, 9], false);
    p.advance(Event::Resume);
    p.advance(Event::Block { block: b100 });
    p.advance(Event::Data { data: frame });
    assert_eq!(p.bank.channels.len(), 1);
    p.reset(origin99(), L2SafeHead { number: 0, timestamp: 1000, epoch_number: 99 });
    assert!(p.bank.channels.is_empty());
    assert!(p.bank.evicted.is_empty());
    assert!(p.batches.is_empty());
    assert_eq!(p.origin, origin99());
    assert_eq!(p.advance(Event::Resume), Action::FetchBlock { number: 100 });
}

/// A block that does not extend the current origin reports a reorganization.
#[test]
fn reorg_is_reported() {
    let cfg = test_config();
    let mut p = PipelineState::new(cfg, TraversalMode::Indexed, origin99());
    p.advance(Event::Resume);
    let wrong_parent = BlockRef { hash: 1000, number: 100, timestamp: 0, parent_hash: 77 };
    assert_eq!(
        p.advance(Event::Block { block: wrong_parent }),
        Action::Signal { signal: Signal::Reset }
    );
    assert_eq!(p.origin, origin99());
}

/// Data-availability fetch failures are retried within the budget and then
/// surface as critical.
#[test]
fn retry_budget_exhaustion_is_critical() {
    let mut cfg = test_config();
    cfg.da_retry_budget = 2;
    let mut p = PipelineState::new(cfg, TraversalMode::Polling, origin99());
    let b100 = block(100, 1000, 990);
    p.advance(Event::Resume);
    p.advance(Event::Block { block: b100 });
    assert_eq!(p.advance(Event::FetchFailed), Action::FetchData { block: b100 });
    assert_eq!(p.advance(Event::FetchFailed), Action::FetchData { block: b100 });
    assert_eq!(
        p.advance(Event::FetchFailed),
        Action::Signal { signal: Signal::Critical }
    );
}

/// Every one of the six required configuration values must be present; the
/// first missing one is named.
#[test]
fn builder_names_each_missing_field() {
    let full = || {
        PipelineBuilder::<u8, u8, u8, u8>::new()
            .rollup_config(test_config())
            .origin(origin99())
            .chain_provider(1)
            .l2_chain_provider(2)
            .dap_source(3)
            .builder(4)
    };
    assert!(full().build_polled().is_ok());
    assert!(full().build_indexed().is_ok());
    let b = PipelineBuilder::<u8, u8, u8, u8>::new()
        .origin(origin99())
        .chain_provider(1)
        .l2_chain_provider(2)
        .dap_source(3)
        .builder(4);
    assert_eq!(b.build_polled().err(), Some(PipelineBuildError::MissingRollupConfig));
    let b = PipelineBuilder::<u8, u8, u8, u8>::new()
        .rollup_config(test_config())
        .chain_provider(1)
        .l2_chain_provider(2)
        .dap_source(3)
        .builder(4);
    assert_eq!(b.build_polled().err(), Some(PipelineBuildError::MissingOrigin));
    let b = PipelineBuilder::<u8, u8, u8, u8>::new()
        .rollup_config(test_config())
        .origin(origin99())
        .l2_chain_provider(2)
        .dap_source(3)
        .builder(4);
    assert_eq!(b.build_polled().err(), Some(PipelineBuildError::MissingChainProvider));
    let b = PipelineBuilder::<u8, u8, u8, u8>::new()
        .rollup_config(test_config())
        .origin(origin99())
        .chain_provider(1)
        .dap_source(3)
        .builder(4);
    assert_eq!(b.build_indexed().err(), Some(PipelineBuildError::MissingL2ChainProvider));
    let b = PipelineBuilder::<u8, u8, u8, u8>::new()
        .rollup_config(test_config())
        .origin(origin99())
        .chain_provider(1)
        .l2_chain_provider(2)
        .builder(4);
    assert_eq!(b.build_indexed().err(), Some(PipelineBuildError::MissingDapSource));
    let b = PipelineBuilder::<u8, u8, u8, u8>::new()
        .rollup_config(test_config())
        .origin(origin99())
        .chain_provider(1)
        .l2_chain_provider(2)
        .dap_source(3);
    assert_eq!(b.build_indexed().err(), Some(PipelineBuildError::MissingBuilder));
}

/// A pipeline built with the builder derives through its state machine.
#[test]
fn built_pipeline_advances() {
    let built = PipelineBuilder::<u8, u8, u8, u8>::new()
        .rollup_config(test_config())
        .origin(origin99())
        .chain_provider(1)
        .l2_chain_provider(2)
        .dap_source(3)
        .builder(4);
    let mut p = built.build_polled().ok().unwrap();
    assert_eq!(p.advance(Event::Resume), Action::FetchBlock { number: 100 });
    assert_eq!(p.chain_provider, 1);
    assert_eq!(p.dap_source, 3);
    p.reset(origin99(), L2SafeHead { number: 0, timestamp: 1000, epoch_number: 99 });
    assert!(p.state.batches.is_empty());
}
