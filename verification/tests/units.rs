use kona_derive::batch::{parse_batches, validate_batch, BatchValidity};
use kona_derive::channel::ChannelBank;
use kona_derive::frame::parse_frames;
use kona_derive::metrics::{MetricDescription, MetricId, MetricUnit, Metrics, RpcMethod, ZeroEntry};
use kona_derive::reader::read_channel;
use kona_derive::types::{Batch, BlockRef, Frame, L2SafeHead, RollupConfig};

fn push_be16(out: &mut Vec<u8>, v: u16) {
    out.extend_from_slice(&v.to_be_bytes());
}

fn push_be32(out: &mut Vec<u8>, v: u32) {
    out.extend_from_slice(&v.to_be_bytes());
}

fn push_be64(out: &mut Vec<u8>, v: u64) {
    out.extend_from_slice(&v.to_be_bytes());
}

fn frame_bytes(channel_id: u64, number: u16, payload: &[u8], is_last: bool) -> Vec<u8> {
    let mut out = Vec::new();
    push_be64(&mut out, channel_id);
    push_be16(&mut out, number);
    push_be32(&mut out, payload.len() as u32);
    out.extend_from_slice(payload);
    out.push(if is_last { 1 } else { 0 });
    out
}

fn singular_record(epoch_number: u64, epoch_hash: u64, timestamp: u64, txs: &[&[u8]]) -> Vec<u8> {
    let mut out = vec![0u8];
    push_be64(&mut out, epoch_number);
    push_be64(&mut out, epoch_hash);
    push_be64(&mut out, timestamp);
    push_be32(&mut out, txs.len() as u32);
    for tx in txs {
        push_be32(&mut out, tx.len() as u32);
        out.extend_from_slice(tx);
    }
    out
}

fn span_record(epoch_number: u64, epoch_hash: u64, start: u64, blocks: &[&[&[u8]]]) -> Vec<u8> {
    let mut out = vec![1u8];
    push_be64(&mut out, epoch_number);
    push_be64(&mut out, epoch_hash);
    push_be64(&mut out, start);
    push_be32(&mut out, blocks.len() as u32);
    for txs in blocks {
        push_be32(&mut out, txs.len() as u32);
        for tx in *txs {
            push_be32(&mut out, tx.len() as u32);
            out.extend_from_slice(tx);
        }
    }
    out
}

fn test_config() -> RollupConfig {
    RollupConfig {
        chain_id: 10,
        genesis_l1: BlockRef { hash: 990, number: 99, timestamp: 0, parent_hash: 989 },
        genesis_l2: L2SafeHead { number: 0, timestamp: 1000, epoch_number: 99 },
        l2_block_time: 2,
        max_channel_duration: 10,
        max_sequencer_drift: 100,
        max_channel_payload: 1 << 20,
        da_retry_budget: 3,
        fee_recipient: 0x42,
        gas_limit: 30_000_000,
    }
}

#[test]
fn frames_decode_in_onchain_order() {
    let mut data = frame_bytes(7, 0, b"ab", false);
    data.extend_from_slice(&frame_bytes(7, 1, b"cd", true));
    let frames = parse_frames(&data);
    assert_eq!(frames.len(), 2);
    assert_eq!(frames[0].channel_id, 7);
    assert_eq!(frames[0].number, 0);
    assert_eq!(frames[0].data, b"ab".to_vec());
    assert!(!frames[0].is_last);
    assert_eq!(frames[1].number, 1);
    assert!(frames[1].is_last);
}

#[test]
fn malformed_frame_discards_rest_of_block() {
    let mut data = frame_bytes(7, 0, b"ab", false);
    let mut bad = frame_bytes(7, 1, b"cd", true);
    *bad.last_mut().unwrap() = 9;
    data.extend_from_slice(&bad);
    data.extend_from_slice(&frame_bytes(7, 2, b"ef", false));
    let frames = parse_frames(&data);
    assert_eq!(frames.len(), 1);
    assert_eq!(frames[0].data, b"ab".to_vec());
}

#[test]
fn duplicate_frame_changes_nothing() {
    let mut bank = ChannelBank::new();
    let f = Frame { channel_id: 5, number: 0, data: b"xy".to_vec(), is_last: false };
    assert!(bank.ingest_frame(f.clone(), 100).is_none());
    assert_eq!(bank.channels.len(), 1);
    assert_eq!(bank.channels[0].parts.len(), 1);
    assert!(bank.ingest_frame(f, 100).is_none());
    assert_eq!(bank.channels.len(), 1);
    assert_eq!(bank.channels[0].parts.len(), 1);
    assert_eq!(bank.channels[0].parts[0].data, b"xy".to_vec());
    // the completing frame still reassembles the unchanged payload
    let done = bank.ingest_frame(
        Frame { channel_id: 5, number: 1, data: b"z".to_vec(), is_last: true },
        100,
    );
    assert_eq!(done, Some((5, b"xyz".to_vec())));
    assert!(bank.channels.is_empty());
}

#[test]
fn timed_out_channel_never_completes() {
    let mut bank = ChannelBank::new();
    let opener = Frame { channel_id: 9, number: 0, data: b"aa".to_vec(), is_last: false };
    assert!(bank.ingest_frame(opener, 100).is_none());
    // max duration 10: still open at block 110, evicted at block 111
    bank.evict_timed_out(110, 10);
    assert_eq!(bank.channels.len(), 1);
    bank.evict_timed_out(111, 10);
    assert!(bank.channels.is_empty());
    assert_eq!(bank.evicted, vec![9]);
    // a late completing frame is dropped outright
    let closer = Frame { channel_id: 9, number: 1, data: b"bb".to_vec(), is_last: true };
    assert!(bank.ingest_frame(closer, 111).is_none());
    assert!(bank.channels.is_empty());
}

#[test]
fn racing_channels_complete_in_arrival_order() {
    let mut bank = ChannelBank::new();
    // channel 1 opens first, channel 2 completes first
    assert!(bank
        .ingest_frame(Frame { channel_id: 1, number: 0, data: b"a".to_vec(), is_last: false }, 100)
        .is_none());
    assert!(bank
        .ingest_frame(Frame { channel_id: 2, number: 0, data: b"c".to_vec(), is_last: false }, 100)
        .is_none());
    let first = bank.ingest_frame(
        Frame { channel_id: 2, number: 1, data: b"d".to_vec(), is_last: true },
        101,
    );
    assert_eq!(first, Some((2, b"cd".to_vec())));
    let second = bank.ingest_frame(
        Frame { channel_id: 1, number: 1, data: b"b".to_vec(), is_last: true },
        101,
    );
    assert_eq!(second, Some((1, b"ab".to_vec())));
    assert!(bank.channels.is_empty());
}

#[test]
fn frames_reassemble_in_number_order() {
    let mut bank = ChannelBank::new();
    // the closing frame arrives before frame number zero
    assert!(bank
        .ingest_frame(Frame { channel_id: 8, number: 1, data: b"late".to_vec(), is_last: true }, 100)
        .is_none());
    let done = bank.ingest_frame(
        Frame { channel_id: 8, number: 0, data: b"early".to_vec(), is_last: false },
        100,
    );
    assert_eq!(done, Some((8, b"earlylate".to_vec())));
}

#[test]
fn singular_record_decodes() {
    let raw = singular_record(100, 1000, 1002, &[b"\x01\x02", b"\x03"]);
    let batches = parse_batches(&raw, 2);
    assert_eq!(batches.len(), 1);
    assert_eq!(batches[0].epoch_number, 100);
    assert_eq!(batches[0].epoch_hash, 1000);
    assert_eq!(batches[0].timestamp, 1002);
    assert_eq!(batches[0].transactions, vec![vec![1u8, 2], vec![3u8]]);
}

#[test]
fn span_record_expands_in_timestamp_order() {
    let b0: &[&[u8]] = &[b"\x01"];
    let b1: &[&[u8]] = &[b"\x02", b"\x03"];
    let raw = span_record(100, 1000, 1002, &[b0, b1]);
    let batches = parse_batches(&raw, 2);
    assert_eq!(batches.len(), 2);
    assert_eq!(batches[0].timestamp, 1002);
    assert_eq!(batches[0].transactions, vec![vec![1u8]]);
    assert_eq!(batches[1].timestamp, 1004);
    assert_eq!(batches[1].transactions, vec![vec![2u8], vec![3u8]]);
    assert_eq!(batches[1].epoch_number, 100);
}

#[test]
fn bad_record_flushes_rest_of_stream() {
    let mut raw = singular_record(100, 1000, 1002, &[b"\x01"]);
    raw.push(7);  // 7 is no record kind: everything after is skipped
    raw.extend_from_slice(&singular_record(100, 1000, 1004, &[b"\x02"]));
    let batches = parse_batches(&raw, 2);
    assert_eq!(batches.len(), 1);
    assert_eq!(batches[0].timestamp, 1002);
}

#[test]
fn validity_rules() {
    let cfg = test_config();
    let safe = L2SafeHead { number: 3, timestamp: 1006, epoch_number: 100 };
    let ok = Batch { epoch_number: 101, epoch_hash: 1010, timestamp: 1008, transactions: vec![vec![1]] };
    assert_eq!(validate_batch(&ok, &safe, 101, &cfg), BatchValidity::Accept);
    let stale = Batch { timestamp: 1006, ..ok.clone() };
    assert_eq!(validate_batch(&stale, &safe, 101, &cfg), BatchValidity::Drop);
    let future = Batch { timestamp: 1010, ..ok.clone() };
    assert_eq!(validate_batch(&future, &safe, 101, &cfg), BatchValidity::Future);
    let old_epoch = Batch { epoch_number: 99, ..ok.clone() };
    assert_eq!(validate_batch(&old_epoch, &safe, 101, &cfg), BatchValidity::Drop);
    // epoch more than max_sequencer_drift (100) ahead of origin 101
    let drifted = Batch { epoch_number: 202, ..ok.clone() };
    assert_eq!(validate_batch(&drifted, &safe, 101, &cfg), BatchValidity::Drop);
    let deposit = Batch { transactions: vec![vec![126, 1]], ..ok.clone() };
    assert_eq!(validate_batch(&deposit, &safe, 101, &cfg), BatchValidity::Drop);
    let empty_tx = Batch { transactions: vec![vec![]], ..ok };
    assert_eq!(validate_batch(&empty_tx, &safe, 101, &cfg), BatchValidity::Drop);
}

#[test]
fn reader_decompresses_and_decodes() {
    let raw = singular_record(100, 1000, 1002, &[b"\x05"]);
    let payload = miniz_oxide::deflate::compress_to_vec_zlib(&raw, 6);
    // the payload is genuinely compressed: raw bytes would decode nothing
    assert_eq!(read_channel(&raw, 1 << 20, 2).len(), 0);
    let batches = read_channel(&payload, 1 << 20, 2);
    assert_eq!(batches.len(), 1);
    assert_eq!(batches[0].transactions, vec![vec![5u8]]);
}

#[test]
fn oversized_payload_is_flushed() {
    let raw = singular_record(100, 1000, 1002, &[b"\x05"]);
    let payload = miniz_oxide::deflate::compress_to_vec_zlib(&raw, 6);
    assert_eq!(read_channel(&payload, raw.len() - 1, 2).len(), 0);
    assert_eq!(read_channel(&payload, raw.len(), 2).len(), 1);
}

#[test]
fn metrics_plan() {
    let descriptions = Metrics::describe();
    assert_eq!(descriptions.len(), 3);
    assert_eq!(
        descriptions[0],
        MetricDescription { metric: MetricId::RequestsSuccessTotal, unit: MetricUnit::Count }
    );
    assert_eq!(
        descriptions[2],
        MetricDescription { metric: MetricId::RequestDurationSeconds, unit: MetricUnit::Seconds }
    );
    let zeros = Metrics::zero();
    assert_eq!(zeros.len(), 42);
    assert_eq!(zeros[0], ZeroEntry { metric: MetricId::RequestsSuccessTotal, method: RpcMethod::ChainId });
    assert_eq!(zeros[1], ZeroEntry { metric: MetricId::RequestsErrorTotal, method: RpcMethod::ChainId });
    assert_eq!(
        zeros[41],
        ZeroEntry { metric: MetricId::RequestDurationSeconds, method: RpcMethod::UpdateCrossSafe }
    );
    let (d2, z2) = Metrics::init();
    assert_eq!(d2, descriptions);
    assert_eq!(z2, zeros);
}
