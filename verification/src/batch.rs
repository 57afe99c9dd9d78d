//! Decoding of a decompressed channel payload into batches, and batch
//! validity against the L2 safe head.
//!
//! A channel payload is a run of batch records, back to back:
//!
//! ```text
//! kind          1 byte: 0 singular, 1 span
//! epoch number  8 bytes, big endian
//! epoch hash    8 bytes, big endian
//! timestamp     8 bytes, big endian (a span's first block)
//! count         4 bytes, big endian (transactions, or a span's blocks)
//! ```
//!
//! A singular record's header is followed by `count` transactions, each a
//! four-byte big-endian length and that many bytes. A span record covers
//! `count` contiguous L2 blocks: for each block a transaction count and its
//! transactions; the blocks' timestamps start at the header timestamp and
//! step by the configured L2 block time. A span expands into one batch per
//! block, timestamp order preserved. A decode error is handled at
//! batch-stream granularity: the records decoded before it stand, the
//! remaining bytes of the channel are skipped.

use vstd::prelude::*;

use crate::frame::{be32_spec, be64_spec, copy_range, read_be32, read_be64};
use crate::types::{Batch, BatchModel, L2SafeHead, RollupConfig};

verus! {

broadcast use crate::types::lemma_bytes_deep_view;

/// `count` length-prefixed transactions starting at `pos`, and the position
/// just past them.
pub open spec fn parse_txs_spec(s: Seq<u8>, pos: int, count: int) -> Option<(Seq<Seq<u8>>, int)>
    decreases count,
{
    if count <= 0 {
        Option::Some((Seq::<Seq<u8>>::empty(), pos))
    } else if pos + 4 > s.len() {
        Option::None
    } else {
        let l = be32_spec(s, pos) as int;
        if pos + 4 + l > s.len() {
            Option::None
        } else {
            match parse_txs_spec(s, pos + 4 + l, count - 1) {
                Option::None => Option::None,
                Option::Some(r) => Option::Some(
                    (seq![s.subrange(pos + 4, pos + 4 + l)] + r.0, r.1),
                ),
            }
        }
    }
}

proof fn lemma_parse_txs_bounds(s: Seq<u8>, pos: int, count: int)
    requires
        0 <= pos <= s.len(),
    ensures
        parse_txs_spec(s, pos, count) matches Option::Some(r) ==> pos <= r.1 <= s.len(),
    decreases count,
{
    if count > 0 && pos + 4 <= s.len() {
        let l = be32_spec(s, pos) as int;
        if pos + 4 + l <= s.len() {
            lemma_parse_txs_bounds(s, pos + 4 + l, count - 1);
        }
    }
}

/// The batches of a span record's blocks starting at `pos`: each block is a
/// transaction count and its transactions, timestamps stepping by `bt` from
/// `ts`. A step past the largest timestamp is a decode error.
pub open spec fn parse_span_blocks_spec(
    s: Seq<u8>,
    pos: int,
    count: int,
    epoch_number: u64,
    epoch_hash: u64,
    ts: u64,
    bt: u64,
) -> Option<(Seq<BatchModel>, int)>
    decreases count,
{
    if count <= 0 {
        Option::Some((Seq::<BatchModel>::empty(), pos))
    } else if pos + 4 > s.len() {
        Option::None
    } else {
        let c = be32_spec(s, pos) as int;
        match parse_txs_spec(s, pos + 4, c) {
            Option::None => Option::None,
            Option::Some(r) => if count > 1 && ts + bt > u64::MAX {
                Option::None
            } else {
                let ts2 = if count > 1 {
                    (ts + bt) as u64
                } else {
                    ts
                };
                match parse_span_blocks_spec(s, r.1, count - 1, epoch_number, epoch_hash, ts2, bt) {
                    Option::None => Option::None,
                    Option::Some(r2) => Option::Some(
                        (
                            seq![
                                BatchModel {
                                    epoch_number,
                                    epoch_hash,
                                    timestamp: ts,
                                    transactions: r.0,
                                },
                            ] + r2.0,
                            r2.1,
                        ),
                    ),
                }
            },
        }
    }
}

proof fn lemma_parse_span_blocks_bounds(
    s: Seq<u8>,
    pos: int,
    count: int,
    epoch_number: u64,
    epoch_hash: u64,
    ts: u64,
    bt: u64,
)
    requires
        0 <= pos <= s.len(),
    ensures
        parse_span_blocks_spec(s, pos, count, epoch_number, epoch_hash, ts, bt) matches
            Option::Some(r) ==> pos <= r.1 <= s.len(),
    decreases count,
{
    if count > 0 && pos + 4 <= s.len() {
        let c = be32_spec(s, pos) as int;
        lemma_parse_txs_bounds(s, pos + 4, c);
        match parse_txs_spec(s, pos + 4, c) {
            Option::None => {},
            Option::Some(r) => {
                if !(count > 1 && ts + bt > u64::MAX) {
                    let ts2 = if count > 1 {
                        (ts + bt) as u64
                    } else {
                        ts
                    };
                    lemma_parse_span_blocks_bounds(s, r.1, count - 1, epoch_number, epoch_hash, ts2, bt);
                }
            },
        }
    }
}

/// The batches of the record starting at `pos` — one for a singular record,
/// one per block for a span record — and the position just past it.
pub open spec fn parse_record_spec(s: Seq<u8>, pos: int, bt: u64) -> Option<(Seq<BatchModel>, int)> {
    if pos + 29 > s.len() {
        Option::None
    } else {
        let kind = s[pos];
        let en = be64_spec(s, pos + 1);
        let eh = be64_spec(s, pos + 9);
        let ts = be64_spec(s, pos + 17);
        let cnt = be32_spec(s, pos + 25) as int;
        if kind == 0 {
            match parse_txs_spec(s, pos + 29, cnt) {
                Option::None => Option::None,
                Option::Some(r) => Option::Some(
                    (
                        seq![
                            BatchModel {
                                epoch_number: en,
                                epoch_hash: eh,
                                timestamp: ts,
                                transactions: r.0,
                            },
                        ],
                        r.1,
                    ),
                ),
            }
        } else if kind == 1 {
            parse_span_blocks_spec(s, pos + 29, cnt, en, eh, ts, bt)
        } else {
            Option::None
        }
    }
}

proof fn lemma_parse_record_bounds(s: Seq<u8>, pos: int, bt: u64)
    requires
        0 <= pos <= s.len(),
    ensures
        parse_record_spec(s, pos, bt) matches Option::Some(r) ==> pos < r.1 <= s.len(),
{
    if pos + 29 <= s.len() {
        let cnt = be32_spec(s, pos + 25) as int;
        lemma_parse_txs_bounds(s, pos + 29, cnt);
        lemma_parse_span_blocks_bounds(
            s,
            pos + 29,
            cnt,
            be64_spec(s, pos + 1),
            be64_spec(s, pos + 9),
            be64_spec(s, pos + 17),
            bt,
        );
    }
}

#[via_fn]
proof fn parse_batches_decreases(s: Seq<u8>, pos: int, bt: u64) {
    if 0 <= pos <= s.len() {
        lemma_parse_record_bounds(s, pos, bt);
    }
}

/// Every batch decodable from `pos` on; decoding stops at the first
/// malformed record and the remaining bytes are skipped.
pub open spec fn parse_batches_spec(s: Seq<u8>, pos: int, bt: u64) -> Seq<BatchModel>
    decreases s.len() - pos,
    via parse_batches_decreases
{
    if 0 <= pos <= s.len() {
        match parse_record_spec(s, pos, bt) {
            Option::None => Seq::<BatchModel>::empty(),
            Option::Some(r) => r.0 + parse_batches_spec(s, r.1, bt),
        }
    } else {
        Seq::<BatchModel>::empty()
    }
}

fn parse_txs(data: &Vec<u8>, pos: usize, count: u32) -> (r: Option<(Vec<Vec<u8>>, usize)>)
    requires
        pos <= data@.len(),
    ensures
        match r {
            Option::Some(p) => parse_txs_spec(data@, pos as int, count as int) == Option::Some(
                (p.0.deep_view(), p.1 as int),
            ) && pos <= p.1 <= data@.len(),
            Option::None => parse_txs_spec(data@, pos as int, count as int) is None,
        },
    decreases count,
{
    if count == 0 {
        let empty: Vec<Vec<u8>> = Vec::new();
        assert(empty.deep_view() =~= Seq::<Seq<u8>>::empty());
        return Some((empty, pos));
    }
    if data.len() - pos < 4 {
        return None;
    }
    let l32 = read_be32(data, pos);
    let l = l32 as usize;
    if l > data.len() - pos - 4 {
        return None;
    }
    let tx = copy_range(data, pos + 4, pos + 4 + l);
    match parse_txs(data, pos + 4 + l, count - 1) {
        None => None,
        Some((mut rest, end)) => {
            let ghost rest_dv = rest.deep_view();
            rest.insert(0, tx);
            assert(rest.deep_view() =~= seq![data@.subrange(pos + 4, pos + 4 + l)] + rest_dv);
            Some((rest, end))
        },
    }
}

fn parse_span_blocks(
    data: &Vec<u8>,
    pos: usize,
    count: u32,
    epoch_number: u64,
    epoch_hash: u64,
    ts: u64,
    bt: u64,
) -> (r: Option<(Vec<Batch>, usize)>)
    requires
        pos <= data@.len(),
    ensures
        match r {
            Option::Some(p) => parse_span_blocks_spec(
                data@,
                pos as int,
                count as int,
                epoch_number,
                epoch_hash,
                ts,
                bt,
            ) == Option::Some((p.0.deep_view(), p.1 as int)) && pos <= p.1 <= data@.len(),
            Option::None => parse_span_blocks_spec(
                data@,
                pos as int,
                count as int,
                epoch_number,
                epoch_hash,
                ts,
                bt,
            ) is None,
        },
    decreases count,
{
    if count == 0 {
        let empty: Vec<Batch> = Vec::new();
        assert(empty.deep_view() =~= Seq::<BatchModel>::empty());
        return Some((empty, pos));
    }
    if data.len() - pos < 4 {
        return None;
    }
    let c = read_be32(data, pos);
    match parse_txs(data, pos + 4, c) {
        None => {
            return None;
        },
        Some((txs, mid)) => {
            let ts2: u64 = if count > 1 {
                match ts.checked_add(bt) {
                    Some(t2) => t2,
                    None => {
                        return None;
                    },
                }
            } else {
                ts
            };
            match parse_span_blocks(data, mid, count - 1, epoch_number, epoch_hash, ts2, bt) {
                None => None,
                Some((mut rest, end)) => {
                    let ghost rest_dv = rest.deep_view();
                    let b = Batch { epoch_number, epoch_hash, timestamp: ts, transactions: txs };
                    let ghost bm = b@;
                    rest.insert(0, b);
                    assert(rest.deep_view() =~= seq![bm] + rest_dv);
                    Some((rest, end))
                },
            }
        },
    }
}

/// Decodes the batch record starting at `pos`, or reports a decode error
/// there.
pub fn parse_record(data: &Vec<u8>, pos: usize, bt: u64) -> (r: Option<(Vec<Batch>, usize)>)
    requires
        pos <= data@.len(),
    ensures
        match r {
            Option::Some(p) => parse_record_spec(data@, pos as int, bt) == Option::Some(
                (p.0.deep_view(), p.1 as int),
            ) && pos < p.1 <= data@.len(),
            Option::None => parse_record_spec(data@, pos as int, bt) is None,
        },
{
    if data.len() - pos < 29 {
        return None;
    }
    let kind = data[pos];
    let en = read_be64(data, pos + 1);
    let eh = read_be64(data, pos + 9);
    let ts = read_be64(data, pos + 17);
    let cnt = read_be32(data, pos + 25);
    if kind == 0 {
        match parse_txs(data, pos + 29, cnt) {
            None => None,
            Some((txs, end)) => {
                let b = Batch { epoch_number: en, epoch_hash: eh, timestamp: ts, transactions: txs };
                let ghost bm = b@;
                let mut out: Vec<Batch> = Vec::new();
                out.push(b);
                assert(out.deep_view() =~= seq![bm]);
                Some((out, end))
            },
        }
    } else if kind == 1 {
        parse_span_blocks(data, pos + 29, cnt, en, eh, ts, bt)
    } else {
        None
    }
}

/// Decodes every batch from a decompressed channel payload; the records
/// decoded before the first malformed one stand, the rest of the payload is
/// skipped.
pub fn parse_batches(data: &Vec<u8>, bt: u64) -> (batches: Vec<Batch>)
    ensures
        batches.deep_view() == parse_batches_spec(data@, 0, bt),
{
    let mut batches: Vec<Batch> = Vec::new();
    let mut pos: usize = 0;
    assert(batches.deep_view() + parse_batches_spec(data@, 0, bt) =~= parse_batches_spec(
        data@,
        0,
        bt,
    ));
    loop
        invariant_except_break
            pos <= data@.len(),
            parse_batches_spec(data@, 0, bt) == batches.deep_view() + parse_batches_spec(
                data@,
                pos as int,
                bt,
            ),
        ensures
            batches.deep_view() == parse_batches_spec(data@, 0, bt),
        decreases data@.len() - pos,
    {
        match parse_record(data, pos, bt) {
            Option::None => {
                assert(batches.deep_view() + parse_batches_spec(data@, pos as int, bt)
                    =~= batches.deep_view());
                break ;
            },
            Option::Some((mut recs, np)) => {
                let ghost pre = batches.deep_view();
                let ghost recs_dv = recs.deep_view();
                batches.append(&mut recs);
                assert(batches.deep_view() =~= pre + recs_dv);
                assert(pre + (recs_dv + parse_batches_spec(data@, np as int, bt)) =~= (pre
                    + recs_dv) + parse_batches_spec(data@, np as int, bt));
                pos = np;
            },
        }
    }
    batches
}

/// Outcome of holding one batch against the safety rules.
#[derive(Clone, Copy, PartialEq, Eq, Structural, Debug)]
pub enum BatchValidity {
    /// The batch fills the next L2 slot.
    Accept,
    /// The batch can never be applied and is discarded.
    Drop,
    /// The batch belongs to a later slot and stays buffered.
    Future,
}

/// A transaction that user data must not carry: empty, or of the deposit
/// transaction type (leading byte 126).
pub open spec fn is_deposit_tx(tx: Seq<u8>) -> bool {
    tx.len() == 0 || tx[0] == 126
}

/// Whether any transaction of the batch is of a kind user data must not
/// carry.
pub open spec fn has_bad_tx(txs: Seq<Seq<u8>>) -> bool {
    exists|i: int| 0 <= i < txs.len() && is_deposit_tx(txs[i])
}

/// The validity rules: the batch's timestamp must be exactly the next L2
/// slot (earlier is stale, later stays buffered); its epoch must not be
/// older than the safe head's epoch nor more than the maximum sequencer
/// drift ahead of the current origin; its transactions must not include
/// deposit-typed or empty entries.
pub open spec fn validate_batch_spec(
    b: BatchModel,
    safe: L2SafeHead,
    origin_number: u64,
    cfg: RollupConfig,
) -> BatchValidity {
    if b.timestamp < safe.timestamp + cfg.l2_block_time {
        BatchValidity::Drop
    } else if b.timestamp > safe.timestamp + cfg.l2_block_time {
        BatchValidity::Future
    } else if b.epoch_number < safe.epoch_number {
        BatchValidity::Drop
    } else if b.epoch_number > origin_number + cfg.max_sequencer_drift {
        BatchValidity::Drop
    } else if has_bad_tx(b.transactions) {
        BatchValidity::Drop
    } else {
        BatchValidity::Accept
    }
}

/// Holds one batch against the safety rules.
pub fn validate_batch(b: &Batch, safe: &L2SafeHead, origin_number: u64, cfg: &RollupConfig) -> (r:
    BatchValidity)
    ensures
        r == validate_batch_spec(b@, *safe, origin_number, *cfg),
{
    let next_ts = (safe.timestamp as u128) + (cfg.l2_block_time as u128);
    if (b.timestamp as u128) < next_ts {
        return BatchValidity::Drop;
    }
    if (b.timestamp as u128) > next_ts {
        return BatchValidity::Future;
    }
    if b.epoch_number < safe.epoch_number {
        return BatchValidity::Drop;
    }
    if (b.epoch_number as u128) > (origin_number as u128) + (cfg.max_sequencer_drift as u128) {
        return BatchValidity::Drop;
    }
    let mut i: usize = 0;
    while i < b.transactions.len()
        invariant
            i <= b.transactions@.len(),
            forall|j: int| 0 <= j < i ==> !is_deposit_tx(b.transactions.deep_view()[j]),
            validate_batch_spec(b@, *safe, origin_number, *cfg) == if has_bad_tx(b@.transactions) {
                BatchValidity::Drop
            } else {
                BatchValidity::Accept
            },
        decreases b.transactions@.len() - i,
    {
        let tx = &b.transactions[i];
        if tx.len() == 0 || tx[0] == 126 {
            assert(is_deposit_tx(b.transactions.deep_view()[i as int]));
            assert(has_bad_tx(b@.transactions));
            return BatchValidity::Drop;
        }
        i = i + 1;
    }
    assert(!has_bad_tx(b@.transactions));
    BatchValidity::Accept
}

/// Law — window rejection: a batch whose epoch is more than the configured
/// maximum sequencer drift ahead of the current origin is never accepted,
/// so it never appears in output attributes.
pub proof fn lemma_window_rejection(
    b: BatchModel,
    safe: L2SafeHead,
    origin_number: u64,
    cfg: RollupConfig,
)
    requires
        b.epoch_number > origin_number + cfg.max_sequencer_drift,
    ensures
        validate_batch_spec(b, safe, origin_number, cfg) != BatchValidity::Accept,
{
}

} // verus!
