//! The derivation pipeline as a pull-driven state machine.
//!
//! All fetching — L1 blocks, data-availability inputs, an epoch's deposit
//! transactions — happens outside the crate. The pipeline names the fetch it
//! needs as an [`Action`]; the caller performs it and hands the answer back
//! as an [`Event`]. Every transition is a mathematical function of the state
//! and the event, so replaying the same L1 blocks and data-availability
//! contents through a freshly built pipeline yields the same attributes in
//! the same order on every run.

use vstd::prelude::*;

use crate::batch::{validate_batch, validate_batch_spec, BatchValidity};
use crate::channel::{bank_evict_spec, bank_ingest_spec, BankModel, ChannelBank};
use crate::frame::{parse_frames, parse_frames_spec};
use crate::reader::{channel_batches_spec, read_channel};
use crate::types::{
    AttributesModel, Batch, BatchModel, BlockRef, EpochRef, Frame, FrameModel, L2SafeHead,
    PayloadAttributes, RollupConfig, Signal,
};

verus! {

broadcast use crate::types::lemma_bytes_deep_view;

/// How the pipeline walks L1: waiting for new heads, or by explicit block
/// number. Fixed at construction.
#[derive(Clone, Copy, PartialEq, Eq, Structural, Debug)]
pub enum TraversalMode {
    Polling,
    Indexed,
}

/// What the pipeline is waiting for.
#[derive(PartialEq, Eq, Debug)]
pub enum Phase {
    /// The next L1 block.
    AwaitBlock,
    /// The current origin's data-availability input.
    AwaitData,
    /// The deposit transactions of an epoch, to finish one attributes value.
    AwaitDeposits { epoch: EpochRef, sequencer_txs: Vec<Vec<u8>>, deposits_only: bool },
    /// Nothing: buffered batches may still produce output.
    Derive,
}

/// Mathematical value of a [`Phase`].
#[verifier::ext_equal]
pub enum PhaseModel {
    AwaitBlock,
    AwaitData,
    AwaitDeposits { epoch: EpochRef, sequencer_txs: Seq<Seq<u8>>, deposits_only: bool },
    Derive,
}

impl View for Phase {
    type V = PhaseModel;

    open spec fn view(&self) -> PhaseModel {
        match self {
            Phase::AwaitBlock => PhaseModel::AwaitBlock,
            Phase::AwaitData => PhaseModel::AwaitData,
            Phase::AwaitDeposits { epoch, sequencer_txs, deposits_only } => (
            PhaseModel::AwaitDeposits {
                epoch: *epoch,
                sequencer_txs: sequencer_txs.deep_view(),
                deposits_only: *deposits_only,
            }),
            Phase::Derive => PhaseModel::Derive,
        }
    }
}

/// The caller's answer to the pipeline's last action.
#[derive(PartialEq, Eq, Debug)]
pub enum Event {
    /// Nothing new: re-issue the pending request.
    Resume,
    /// The requested L1 block.
    Block { block: BlockRef },
    /// The requested L1 block does not exist yet.
    NoBlock,
    /// The requested block's data-availability input.
    Data { data: Vec<u8> },
    /// The requested block has no relevant data.
    NoData,
    /// The data-availability fetch failed.
    FetchFailed,
    /// The requested epoch's deposit transactions.
    Deposits { transactions: Vec<Vec<u8>> },
}

/// Mathematical value of an [`Event`].
#[verifier::ext_equal]
pub enum EventModel {
    Resume,
    Block { block: BlockRef },
    NoBlock,
    Data { data: Seq<u8> },
    NoData,
    FetchFailed,
    Deposits { transactions: Seq<Seq<u8>> },
}

impl View for Event {
    type V = EventModel;

    open spec fn view(&self) -> EventModel {
        match self {
            Event::Resume => EventModel::Resume,
            Event::Block { block } => (EventModel::Block { block: *block }),
            Event::NoBlock => EventModel::NoBlock,
            Event::Data { data } => (EventModel::Data { data: data@ }),
            Event::NoData => EventModel::NoData,
            Event::FetchFailed => EventModel::FetchFailed,
            Event::Deposits { transactions } => (EventModel::Deposits {
                transactions: transactions.deep_view(),
            }),
        }
    }
}

/// What the pipeline asks of its caller next.
#[derive(PartialEq, Eq, Debug)]
pub enum Action {
    /// Fetch this L1 block from the chain provider.
    FetchBlock { number: u64 },
    /// Fetch this block's input from the data-availability provider.
    FetchData { block: BlockRef },
    /// Fetch this epoch's deposit transactions from the chain providers.
    FetchDeposits { epoch: EpochRef },
    /// One derived attributes value.
    Yield { attributes: PayloadAttributes },
    /// No output now: `NotEnoughData` asks for a later retry, `Reset` reports
    /// an L1 reorganization, `Critical` halts the pipeline. `Flush` is
    /// resolved inside the stages and never returned.
    Signal { signal: Signal },
}

/// Mathematical value of an [`Action`].
#[verifier::ext_equal]
pub enum ActionModel {
    FetchBlock { number: u64 },
    FetchData { block: BlockRef },
    FetchDeposits { epoch: EpochRef },
    Yield { attributes: AttributesModel },
    Signal { signal: Signal },
}

impl View for Action {
    type V = ActionModel;

    open spec fn view(&self) -> ActionModel {
        match self {
            Action::FetchBlock { number } => (ActionModel::FetchBlock { number: *number }),
            Action::FetchData { block } => (ActionModel::FetchData { block: *block }),
            Action::FetchDeposits { epoch } => (ActionModel::FetchDeposits { epoch: *epoch }),
            Action::Yield { attributes } => (ActionModel::Yield { attributes: attributes@ }),
            Action::Signal { signal } => (ActionModel::Signal { signal: *signal }),
        }
    }
}

/// The pipeline's exclusively owned state: configuration, traversal mode,
/// origin cursor, L2 safe head, what it awaits, open channels, and buffered
/// batches.
#[derive(Debug)]
pub struct PipelineState {
    pub cfg: RollupConfig,
    pub mode: TraversalMode,
    pub origin: BlockRef,
    pub safe_head: L2SafeHead,
    pub phase: Phase,
    pub bank: ChannelBank,
    pub batches: Vec<Batch>,
    pub retries: u64,
}

/// Mathematical value of a [`PipelineState`].
#[verifier::ext_equal]
pub struct PipelineModel {
    pub cfg: RollupConfig,
    pub mode: TraversalMode,
    pub origin: BlockRef,
    pub safe_head: L2SafeHead,
    pub phase: PhaseModel,
    pub bank: BankModel,
    pub batches: Seq<BatchModel>,
    pub retries: u64,
}

impl View for PipelineState {
    type V = PipelineModel;

    open spec fn view(&self) -> PipelineModel {
        PipelineModel {
            cfg: self.cfg,
            mode: self.mode,
            origin: self.origin,
            safe_head: self.safe_head,
            phase: self.phase@,
            bank: self.bank@,
            batches: self.batches.deep_view(),
            retries: self.retries,
        }
    }
}

/// The state a pipeline starts from: synchronized to `origin`, nothing
/// buffered.
pub open spec fn base_model(
    cfg: RollupConfig,
    mode: TraversalMode,
    origin: BlockRef,
    safe: L2SafeHead,
) -> PipelineModel {
    PipelineModel {
        cfg,
        mode,
        origin,
        safe_head: safe,
        phase: PhaseModel::AwaitBlock,
        bank: BankModel { channels: Seq::empty(), evicted: Seq::empty() },
        batches: Seq::empty(),
        retries: 0,
    }
}

/// Delivering a run of frames to the bank: the bank after, and the payloads
/// of the channels they completed, in arrival order.
pub open spec fn ingest_all_spec(b: BankModel, frames: Seq<FrameModel>, origin_number: u64) -> (
    BankModel,
    Seq<Seq<u8>>,
)
    decreases frames.len(),
{
    if frames.len() == 0 {
        (b, Seq::<Seq<u8>>::empty())
    } else {
        let r = bank_ingest_spec(b, frames[0], origin_number);
        let rest = ingest_all_spec(r.0, frames.drop_first(), origin_number);
        (
            rest.0,
            match r.1 {
                Option::Some(p) => seq![p.1] + rest.1,
                Option::None => rest.1,
            },
        )
    }
}

/// The batches of a run of completed channel payloads, channel order kept.
pub open spec fn payload_batches_spec(payloads: Seq<Seq<u8>>, max: usize, bt: u64) -> Seq<
    BatchModel,
>
    decreases payloads.len(),
{
    if payloads.len() == 0 {
        Seq::<BatchModel>::empty()
    } else {
        channel_batches_spec(payloads[0], max, bt) + payload_batches_spec(
            payloads.drop_first(),
            max,
            bt,
        )
    }
}

/// One pass over the buffered batches: invalid ones are dropped, batches of
/// a later slot stay buffered, and the first batch that fills the next L2
/// slot is taken out.
pub open spec fn derive_next_spec(
    batches: Seq<BatchModel>,
    safe: L2SafeHead,
    origin_number: u64,
    cfg: RollupConfig,
) -> (Seq<BatchModel>, Option<BatchModel>)
    decreases batches.len(),
{
    if batches.len() == 0 {
        (Seq::<BatchModel>::empty(), Option::<BatchModel>::None)
    } else {
        match validate_batch_spec(batches[0], safe, origin_number, cfg) {
            BatchValidity::Accept => (batches.drop_first(), Option::Some(batches[0])),
            BatchValidity::Drop => derive_next_spec(batches.drop_first(), safe, origin_number, cfg),
            BatchValidity::Future => {
                let r = derive_next_spec(batches.drop_first(), safe, origin_number, cfg);
                (seq![batches[0]] + r.0, r.1)
            },
        }
    }
}

/// Law — window rejection at the pipeline: the batch chosen to fill the
/// next L2 slot is never more than the configured maximum sequencer drift
/// ahead of the current origin, so no attributes value is ever derived from
/// one that is.
pub proof fn lemma_derive_respects_drift(
    batches: Seq<BatchModel>,
    safe: L2SafeHead,
    origin_number: u64,
    cfg: RollupConfig,
)
    ensures
        derive_next_spec(batches, safe, origin_number, cfg).1 matches Option::Some(b)
            ==> b.epoch_number <= origin_number + cfg.max_sequencer_drift,
    decreases batches.len(),
{
    if batches.len() > 0 {
        match validate_batch_spec(batches[0], safe, origin_number, cfg) {
            BatchValidity::Accept => {},
            BatchValidity::Drop => {
                lemma_derive_respects_drift(batches.drop_first(), safe, origin_number, cfg);
            },
            BatchValidity::Future => {
                lemma_derive_respects_drift(batches.drop_first(), safe, origin_number, cfg);
            },
        }
    }
}

/// The attributes value for one L2 slot: the epoch's deposit transactions
/// first, then the batch's sequencer transactions.
pub open spec fn attributes_model(
    deposits: Seq<Seq<u8>>,
    sequencer_txs: Seq<Seq<u8>>,
    epoch: EpochRef,
    timestamp: u64,
    cfg: RollupConfig,
    deposits_only: bool,
) -> AttributesModel {
    AttributesModel {
        timestamp,
        prev_randao: epoch.hash,
        fee_recipient: cfg.fee_recipient,
        gas_limit: cfg.gas_limit,
        epoch_number: epoch.number,
        epoch_hash: epoch.hash,
        transactions: deposits + sequencer_txs,
        no_tx_pool: true,
        deposits_only,
    }
}

/// Tries to produce from the buffered batches: the accepted batch's epoch
/// deposits are requested, or the next L1 block when no batch fills the
/// next slot.
pub open spec fn step_derive_spec(m: PipelineModel) -> (PipelineModel, ActionModel) {
    let r = derive_next_spec(m.batches, m.safe_head, m.origin.number, m.cfg);
    match r.1 {
        Option::Some(b) => {
            let ep = EpochRef { number: b.epoch_number, hash: b.epoch_hash };
            (
                PipelineModel {
                    batches: r.0,
                    phase: PhaseModel::AwaitDeposits {
                        epoch: ep,
                        sequencer_txs: b.transactions,
                        deposits_only: false,
                    },
                    ..m
                },
                ActionModel::FetchDeposits { epoch: ep },
            )
        },
        Option::None => if m.origin.number + 1 > u64::MAX {
            (
                PipelineModel { batches: r.0, phase: PhaseModel::AwaitBlock, ..m },
                ActionModel::Signal { signal: Signal::Critical },
            )
        } else {
            (
                PipelineModel { batches: r.0, phase: PhaseModel::AwaitBlock, ..m },
                ActionModel::FetchBlock { number: (m.origin.number + 1) as u64 },
            )
        },
    }
}

/// The pipeline's whole transition function: one event in, one action out.
/// An event that does not answer the pending request leaves the state
/// unchanged and asks for a later retry.
pub open spec fn step_spec(m: PipelineModel, e: EventModel) -> (PipelineModel, ActionModel) {
    match m.phase {
        PhaseModel::AwaitBlock => match e {
            EventModel::Resume => if m.origin.number + 1 > u64::MAX {
                (m, ActionModel::Signal { signal: Signal::Critical })
            } else {
                (m, ActionModel::FetchBlock { number: (m.origin.number + 1) as u64 })
            },
            EventModel::Block { block } => if block.number == m.origin.number + 1
                && block.parent_hash == m.origin.hash {
                (
                    PipelineModel {
                        origin: block,
                        phase: PhaseModel::AwaitData,
                        retries: 0,
                        ..m
                    },
                    ActionModel::FetchData { block },
                )
            } else {
                (m, ActionModel::Signal { signal: Signal::Reset })
            },
            _ => (m, ActionModel::Signal { signal: Signal::NotEnoughData }),
        },
        PhaseModel::AwaitData => match e {
            EventModel::Resume => (m, ActionModel::FetchData { block: m.origin }),
            EventModel::Data { data } => {
                let bank1 = bank_evict_spec(m.bank, m.origin.number, m.cfg.max_channel_duration);
                let r = ingest_all_spec(bank1, parse_frames_spec(data, 0), m.origin.number);
                let newb = payload_batches_spec(r.1, m.cfg.max_channel_payload, m.cfg.l2_block_time);
                step_derive_spec(
                    PipelineModel {
                        bank: r.0,
                        batches: m.batches + newb,
                        phase: PhaseModel::AwaitBlock,
                        retries: 0,
                        ..m
                    },
                )
            },
            EventModel::NoData => {
                let bank1 = bank_evict_spec(m.bank, m.origin.number, m.cfg.max_channel_duration);
                if bank1.channels.len() == 0 && m.batches.len() == 0 {
                    let ep = EpochRef { number: m.origin.number, hash: m.origin.hash };
                    (
                        PipelineModel {
                            bank: bank1,
                            phase: PhaseModel::AwaitDeposits {
                                epoch: ep,
                                sequencer_txs: Seq::empty(),
                                deposits_only: true,
                            },
                            retries: 0,
                            ..m
                        },
                        ActionModel::FetchDeposits { epoch: ep },
                    )
                } else {
                    step_derive_spec(
                        PipelineModel {
                            bank: bank1,
                            phase: PhaseModel::AwaitBlock,
                            retries: 0,
                            ..m
                        },
                    )
                }
            },
            EventModel::FetchFailed => if m.retries >= m.cfg.da_retry_budget {
                (m, ActionModel::Signal { signal: Signal::Critical })
            } else {
                (
                    PipelineModel { retries: (m.retries + 1) as u64, ..m },
                    ActionModel::FetchData { block: m.origin },
                )
            },
            _ => (m, ActionModel::Signal { signal: Signal::NotEnoughData }),
        },
        PhaseModel::AwaitDeposits { epoch, sequencer_txs, deposits_only } => match e {
            EventModel::Resume => (m, ActionModel::FetchDeposits { epoch }),
            EventModel::Deposits { transactions } => if m.safe_head.timestamp
                + m.cfg.l2_block_time > u64::MAX || m.safe_head.number + 1 > u64::MAX {
                (m, ActionModel::Signal { signal: Signal::Critical })
            } else {
                let ts = (m.safe_head.timestamp + m.cfg.l2_block_time) as u64;
                (
                    PipelineModel {
                        safe_head: L2SafeHead {
                            number: (m.safe_head.number + 1) as u64,
                            timestamp: ts,
                            epoch_number: epoch.number,
                        },
                        phase: PhaseModel::Derive,
                        ..m
                    },
                    ActionModel::Yield {
                        attributes: attributes_model(
                            transactions,
                            sequencer_txs,
                            epoch,
                            ts,
                            m.cfg,
                            deposits_only,
                        ),
                    },
                )
            },
            _ => (m, ActionModel::Signal { signal: Signal::NotEnoughData }),
        },
        PhaseModel::Derive => match e {
            EventModel::Resume => step_derive_spec(m),
            _ => (m, ActionModel::Signal { signal: Signal::NotEnoughData }),
        },
    }
}

/// The actions a pipeline answers to a run of events.
pub open spec fn run_spec(m: PipelineModel, events: Seq<EventModel>) -> Seq<ActionModel>
    decreases events.len(),
{
    if events.len() == 0 {
        Seq::<ActionModel>::empty()
    } else {
        let r = step_spec(m, events[0]);
        seq![r.1] + run_spec(r.0, events.drop_first())
    }
}

/// The state a pipeline is left in by a reset: the caller-supplied origin
/// and safe head, and every buffer — channels, evicted ids, batches —
/// discarded.
pub open spec fn reset_model(m: PipelineModel, origin: BlockRef, safe: L2SafeHead) -> PipelineModel {
    base_model(m.cfg, m.mode, origin, safe)
}

impl PipelineState {
    /// A pipeline synchronized to `origin`, with the configured L2 genesis
    /// as its safe head and nothing buffered.
    pub fn new(cfg: RollupConfig, mode: TraversalMode, origin: BlockRef) -> (r: PipelineState)
        ensures
            r@ == base_model(cfg, mode, origin, cfg.genesis_l2),
    {
        let r = PipelineState {
            cfg,
            mode,
            origin,
            safe_head: cfg.genesis_l2,
            phase: Phase::AwaitBlock,
            bank: ChannelBank::new(),
            batches: Vec::new(),
            retries: 0,
        };
        assert(r@ =~= base_model(cfg, mode, origin, cfg.genesis_l2)) by {
            assert(r.bank@.channels =~= Seq::<crate::channel::ChannelModel>::empty());
            assert(r.bank@.evicted =~= Seq::<u64>::empty());
            assert(r.batches.deep_view() =~= Seq::<BatchModel>::empty());
        }
        r
    }

    /// Discards all buffered state at every stage and restarts traversal at
    /// the caller-supplied origin and safe head; the only transition that
    /// moves the pipeline non-monotonically.
    pub fn reset(&mut self, origin: BlockRef, safe: L2SafeHead)
        ensures
            final(self)@ == reset_model(old(self)@, origin, safe),
    {
        self.origin = origin;
        self.safe_head = safe;
        self.phase = Phase::AwaitBlock;
        self.bank = ChannelBank::new();
        self.batches = Vec::new();
        self.retries = 0;
        assert(self@ =~= reset_model(old(self)@, origin, safe)) by {
            assert(self.bank@.channels =~= Seq::<crate::channel::ChannelModel>::empty());
            assert(self.bank@.evicted =~= Seq::<u64>::empty());
            assert(self.batches.deep_view() =~= Seq::<BatchModel>::empty());
        }
    }

    /// Evicts timed-out channels, decodes the block's frames, reassembles
    /// channels and buffers the batches of those completed.
    fn apply_data(&mut self, data: Vec<u8>)
        ensures
            final(self)@ == ({
                let bank1 = bank_evict_spec(
                    old(self)@.bank,
                    old(self).origin.number,
                    old(self).cfg.max_channel_duration,
                );
                let r = ingest_all_spec(bank1, parse_frames_spec(data@, 0), old(self).origin.number);
                PipelineModel {
                    bank: r.0,
                    batches: old(self)@.batches + payload_batches_spec(
                        r.1,
                        old(self).cfg.max_channel_payload,
                        old(self).cfg.l2_block_time,
                    ),
                    ..old(self)@
                }
            }),
    {
        let onum = self.origin.number;
        let dur = self.cfg.max_channel_duration;
        let maxp = self.cfg.max_channel_payload;
        let bt = self.cfg.l2_block_time;
        self.bank.evict_timed_out(onum, dur);
        let mut frames = parse_frames(&data);
        let ghost bank1 = self.bank@;
        let ghost target = ingest_all_spec(bank1, frames.deep_view(), onum);
        let ghost pre_batches = self.batches.deep_view();
        loop
            invariant_except_break
                onum == old(self).origin.number,
                maxp == old(self).cfg.max_channel_payload,
                bt == old(self).cfg.l2_block_time,
                self.cfg == old(self).cfg,
                self.mode == old(self).mode,
                self.origin == old(self).origin,
                self.safe_head == old(self).safe_head,
                self.phase@ == old(self)@.phase,
                self.retries == old(self).retries,
                ingest_all_spec(self.bank@, frames.deep_view(), onum).0 == target.0,
                self.batches.deep_view() + payload_batches_spec(
                    ingest_all_spec(self.bank@, frames.deep_view(), onum).1,
                    maxp,
                    bt,
                ) == pre_batches + payload_batches_spec(target.1, maxp, bt),
            ensures
                self.cfg == old(self).cfg,
                self.mode == old(self).mode,
                self.origin == old(self).origin,
                self.safe_head == old(self).safe_head,
                self.phase@ == old(self)@.phase,
                self.retries == old(self).retries,
                self.bank@ == target.0,
                self.batches.deep_view() == pre_batches + payload_batches_spec(target.1, maxp, bt),
            decreases frames@.len(),
        {
            if frames.len() == 0 {
                assert(frames.deep_view() =~= Seq::<FrameModel>::empty());
                assert(self.batches.deep_view() + payload_batches_spec(
                    ingest_all_spec(self.bank@, frames.deep_view(), onum).1,
                    maxp,
                    bt,
                ) =~= self.batches.deep_view());
                break ;
            }
            let ghost pre_frames = frames.deep_view();
            let ghost pre_bank = self.bank@;
            let f = frames.remove(0);
            assert(frames.deep_view() =~= pre_frames.drop_first());
            assert(f@ == pre_frames[0]);
            let out = self.bank.ingest_frame(f, onum);
            proof {
                let r = bank_ingest_spec(pre_bank, pre_frames[0], onum);
                let rest = ingest_all_spec(r.0, pre_frames.drop_first(), onum);
                assert(ingest_all_spec(pre_bank, pre_frames, onum).0 == rest.0);
            }
            match out {
                Option::None => {
                    proof {
                        let r = bank_ingest_spec(pre_bank, pre_frames[0], onum);
                        let rest = ingest_all_spec(r.0, pre_frames.drop_first(), onum);
                        assert(ingest_all_spec(pre_bank, pre_frames, onum).1 == rest.1);
                    }
                },
                Option::Some((_, payload)) => {
                    proof {
                        let r = bank_ingest_spec(pre_bank, pre_frames[0], onum);
                        let rest = ingest_all_spec(r.0, pre_frames.drop_first(), onum);
                        assert(ingest_all_spec(pre_bank, pre_frames, onum).1 == seq![payload@]
                            + rest.1);
                        assert((seq![payload@] + rest.1).drop_first() =~= rest.1);
                        assert((seq![payload@] + rest.1)[0] == payload@);
                        assert(payload_batches_spec(seq![payload@] + rest.1, maxp, bt)
                            == channel_batches_spec(payload@, maxp, bt) + payload_batches_spec(
                            rest.1,
                            maxp,
                            bt,
                        ));
                    }
                    let ghost pb = self.batches.deep_view();
                    let mut bs = read_channel(&payload, maxp, bt);
                    let ghost bs_dv = bs.deep_view();
                    self.batches.append(&mut bs);
                    assert(self.batches.deep_view() =~= pb + bs_dv);
                    assert(pb + (bs_dv + payload_batches_spec(
                        ingest_all_spec(self.bank@, frames.deep_view(), onum).1,
                        maxp,
                        bt,
                    )) =~= (pb + bs_dv) + payload_batches_spec(
                        ingest_all_spec(self.bank@, frames.deep_view(), onum).1,
                        maxp,
                        bt,
                    ));
                },
            }
        }
        assert(final(self)@ =~= ({
            let bank1x = bank_evict_spec(
                old(self)@.bank,
                old(self).origin.number,
                old(self).cfg.max_channel_duration,
            );
            let r = ingest_all_spec(bank1x, parse_frames_spec(data@, 0), old(self).origin.number);
            PipelineModel {
                bank: r.0,
                batches: old(self)@.batches + payload_batches_spec(r.1, maxp, bt),
                ..old(self)@
            }
        }));
    }

    /// Tries to produce from the buffered batches: requests the accepted
    /// batch's epoch deposits, or the next L1 block when no batch fills the
    /// next slot.
    fn derive_step(&mut self) -> (r: Action)
        ensures
            final(self)@ == step_derive_spec(old(self)@).0,
            r@ == step_derive_spec(old(self)@).1,
    {
        let safe = self.safe_head;
        let onum = self.origin.number;
        let cfg = self.cfg;
        let ghost orig = self.batches.deep_view();
        let ghost target = derive_next_spec(orig, safe, onum, cfg);
        let mut pending: Vec<Batch> = Vec::new();
        core::mem::swap(&mut pending, &mut self.batches);
        let mut kept: Vec<Batch> = Vec::new();
        let mut accepted: Option<Batch> = None;
        assert(kept.deep_view() =~= Seq::<BatchModel>::empty());
        loop
            invariant_except_break
                accepted is None,
                target.0 == kept.deep_view() + derive_next_spec(
                    pending.deep_view(),
                    safe,
                    onum,
                    cfg,
                ).0,
                target.1 == derive_next_spec(pending.deep_view(), safe, onum, cfg).1,
            ensures
                kept.deep_view() == target.0,
                match accepted {
                    Option::Some(b) => target.1 == Option::Some(b@),
                    Option::None => target.1 is None,
                },
            decreases pending@.len(),
        {
            if pending.len() == 0 {
                assert(kept.deep_view() + derive_next_spec(
                    pending.deep_view(),
                    safe,
                    onum,
                    cfg,
                ).0 =~= kept.deep_view());
                break ;
            }
            let ghost pre_pending = pending.deep_view();
            let b = pending.remove(0);
            assert(pending.deep_view() =~= pre_pending.drop_first());
            assert(b@ == pre_pending[0]);
            let v = validate_batch(&b, &safe, onum, &cfg);
            match v {
                BatchValidity::Accept => {
                    let ghost pre_kept = kept.deep_view();
                    let ghost rest = pending.deep_view();
                    accepted = Some(b);
                    kept.append(&mut pending);
                    assert(kept.deep_view() =~= pre_kept + rest);
                    break ;
                },
                BatchValidity::Drop => {},
                BatchValidity::Future => {
                    let ghost pre_kept = kept.deep_view();
                    kept.push(b);
                    assert(kept.deep_view() =~= pre_kept.push(pre_pending[0]));
                    assert(pre_kept + (seq![pre_pending[0]] + derive_next_spec(
                        pending.deep_view(),
                        safe,
                        onum,
                        cfg,
                    ).0) =~= kept.deep_view() + derive_next_spec(
                        pending.deep_view(),
                        safe,
                        onum,
                        cfg,
                    ).0);
                },
            }
        }
        self.batches = kept;
        match accepted {
            Option::None => {
                self.phase = Phase::AwaitBlock;
                let r = match onum.checked_add(1) {
                    Option::None => (Action::Signal { signal: Signal::Critical }),
                    Option::Some(nn) => (Action::FetchBlock { number: nn }),
                };
                assert(final(self)@ =~= step_derive_spec(old(self)@).0);
                r
            },
            Option::Some(b) => {
                let ep = EpochRef { number: b.epoch_number, hash: b.epoch_hash };
                let ghost bm = b@;
                let Batch { transactions, .. } = b;
                self.phase = Phase::AwaitDeposits {
                    epoch: ep,
                    sequencer_txs: transactions,
                    deposits_only: false,
                };
                assert(final(self)@ =~= step_derive_spec(old(self)@).0);
                Action::FetchDeposits { epoch: ep }
            },
        }
    }
}

impl PipelineState {
    /// One pull: consumes the caller's answer to the last action and names
    /// what to do next. Every transition is a mathematical function of the
    /// state and the event; `Flush` is resolved internally and never
    /// returned.
    pub fn advance(&mut self, event: Event) -> (r: Action)
        ensures
            final(self)@ == step_spec(old(self)@, event@).0,
            r@ == step_spec(old(self)@, event@).1,
            !(r@ matches ActionModel::Signal { signal: Signal::Flush }),
    {
        let ghost m0 = self@;
        let ghost ev = event@;
        match &self.phase {
            Phase::AwaitBlock => match event {
                Event::Resume => match self.origin.number.checked_add(1) {
                    Option::None => (Action::Signal { signal: Signal::Critical }),
                    Option::Some(nn) => (Action::FetchBlock { number: nn }),
                },
                Event::Block { block } => {
                    let succ = match self.origin.number.checked_add(1) {
                        Option::Some(nn) => block.number == nn,
                        Option::None => false,
                    };
                    if succ && block.parent_hash == self.origin.hash {
                        self.origin = block;
                        self.phase = Phase::AwaitData;
                        self.retries = 0;
                        assert(self@ =~= step_spec(m0, ev).0);
                        Action::FetchData { block }
                    } else {
                        Action::Signal { signal: Signal::Reset }
                    }
                },
                _ => (Action::Signal { signal: Signal::NotEnoughData }),
            },
            Phase::AwaitData => match event {
                Event::Resume => (Action::FetchData { block: self.origin }),
                Event::Data { data } => {
                    self.phase = Phase::AwaitBlock;
                    self.retries = 0;
                    let ghost dm = data@;
                    self.apply_data(data);
                    proof {
                        let bank1 = bank_evict_spec(
                            m0.bank,
                            m0.origin.number,
                            m0.cfg.max_channel_duration,
                        );
                        let rr = ingest_all_spec(bank1, parse_frames_spec(dm, 0), m0.origin.number);
                        let newb = payload_batches_spec(
                            rr.1,
                            m0.cfg.max_channel_payload,
                            m0.cfg.l2_block_time,
                        );
                        assert(self@ =~= (PipelineModel {
                            bank: rr.0,
                            batches: m0.batches + newb,
                            phase: PhaseModel::AwaitBlock,
                            retries: 0,
                            ..m0
                        }));
                    }
                    let r = self.derive_step();
                    r
                },
                Event::NoData => {
                    let onum = self.origin.number;
                    let dur = self.cfg.max_channel_duration;
                    self.bank.evict_timed_out(onum, dur);
                    self.retries = 0;
                    if self.bank.channels.len() == 0 && self.batches.len() == 0 {
                        let ep = EpochRef { number: self.origin.number, hash: self.origin.hash };
                        let empty_txs: Vec<Vec<u8>> = Vec::new();
                        assert(empty_txs.deep_view() =~= Seq::<Seq<u8>>::empty());
                        self.phase = Phase::AwaitDeposits {
                            epoch: ep,
                            sequencer_txs: empty_txs,
                            deposits_only: true,
                        };
                        assert(self@ =~= step_spec(m0, ev).0);
                        Action::FetchDeposits { epoch: ep }
                    } else {
                        self.phase = Phase::AwaitBlock;
                        proof {
                            let bank1 = bank_evict_spec(
                                m0.bank,
                                m0.origin.number,
                                m0.cfg.max_channel_duration,
                            );
                            assert(self@ =~= (PipelineModel {
                                bank: bank1,
                                phase: PhaseModel::AwaitBlock,
                                retries: 0,
                                ..m0
                            }));
                        }
                        let r = self.derive_step();
                        r
                    }
                },
                Event::FetchFailed => {
                    if self.retries >= self.cfg.da_retry_budget {
                        Action::Signal { signal: Signal::Critical }
                    } else {
                        self.retries = self.retries + 1;
                        assert(self@ =~= step_spec(m0, ev).0);
                        Action::FetchData { block: self.origin }
                    }
                },
                _ => (Action::Signal { signal: Signal::NotEnoughData }),
            },
            Phase::AwaitDeposits { .. } => match event {
                Event::Resume => {
                    if let Phase::AwaitDeposits { epoch, .. } = &self.phase {
                        Action::FetchDeposits { epoch: *epoch }
                    } else {
                        proof {
                            assert(false);
                        }
                        Action::Signal { signal: Signal::Critical }
                    }
                },
                Event::Deposits { transactions } => {
                    let ts_opt = self.safe_head.timestamp.checked_add(self.cfg.l2_block_time);
                    let nn_opt = self.safe_head.number.checked_add(1);
                    match (ts_opt, nn_opt) {
                        (Option::Some(ts), Option::Some(nn)) => {
                            let mut ph = Phase::Derive;
                            core::mem::swap(&mut ph, &mut self.phase);
                            if let Phase::AwaitDeposits { epoch, sequencer_txs, deposits_only } =
                                ph {
                                let ghost deps_dv = transactions.deep_view();
                                let ghost seqs_dv = sequencer_txs.deep_view();
                                let mut txs = transactions;
                                let mut stx = sequencer_txs;
                                txs.append(&mut stx);
                                assert(txs.deep_view() =~= deps_dv + seqs_dv);
                                let attrs = PayloadAttributes {
                                    timestamp: ts,
                                    prev_randao: epoch.hash,
                                    fee_recipient: self.cfg.fee_recipient,
                                    gas_limit: self.cfg.gas_limit,
                                    epoch_number: epoch.number,
                                    epoch_hash: epoch.hash,
                                    transactions: txs,
                                    no_tx_pool: true,
                                    deposits_only,
                                };
                                self.safe_head = L2SafeHead {
                                    number: nn,
                                    timestamp: ts,
                                    epoch_number: epoch.number,
                                };
                                assert(self@ =~= step_spec(m0, ev).0);
                                assert(attrs@ =~= attributes_model(
                                    deps_dv,
                                    seqs_dv,
                                    epoch,
                                    ts,
                                    m0.cfg,
                                    deposits_only,
                                ));
                                Action::Yield { attributes: attrs }
                            } else {
                                proof {
                                    assert(false);
                                }
                                Action::Signal { signal: Signal::Critical }
                            }
                        },
                        _ => (Action::Signal { signal: Signal::Critical }),
                    }
                },
                _ => (Action::Signal { signal: Signal::NotEnoughData }),
            },
            Phase::Derive => match event {
                Event::Resume => {
                    let r = self.derive_step();
                    r
                },
                _ => (Action::Signal { signal: Signal::NotEnoughData }),
            },
        }
    }
}

/// Law — determinism: every transition is a function of state and event, so
/// two pipelines in the same state answer the same run of events — the same
/// L1 blocks and data-availability contents — with the identical, ordered
/// run of actions, attributes included.
pub proof fn lemma_determinism(m1: PipelineModel, m2: PipelineModel, events: Seq<EventModel>)
    requires
        m1 == m2,
    ensures
        run_spec(m1, events) == run_spec(m2, events),
{
}

/// Law — output order: every yielded attributes value fills exactly the
/// next L2 slot — its timestamp is the safe head's plus the L2 block time —
/// and the safe head advances to it, so attributes leave the pipeline in
/// strictly increasing timestamp order.
pub proof fn lemma_timestamp_order(m: PipelineModel, e: EventModel)
    ensures
        step_spec(m, e).1 matches ActionModel::Yield { attributes } ==> attributes.timestamp
            == m.safe_head.timestamp + m.cfg.l2_block_time && step_spec(
            m,
            e,
        ).0.safe_head.timestamp == attributes.timestamp,
{
}

/// Law — reset completeness: the state after a reset to origin `origin` and
/// safe head `safe` holds no channel, no evicted id and no batch, and a
/// pipeline reset there behaves, on every later run of events, exactly as a
/// freshly built pipeline synchronized to `origin`: nothing buffered before
/// the reset can reach the output.
pub proof fn lemma_reset_completeness(
    cfg: RollupConfig,
    mode: TraversalMode,
    origin: BlockRef,
    safe: L2SafeHead,
    events: Seq<EventModel>,
)
    ensures
        base_model(cfg, mode, origin, safe).bank.channels.len() == 0,
        base_model(cfg, mode, origin, safe).bank.evicted.len() == 0,
        base_model(cfg, mode, origin, safe).batches.len() == 0,
        run_spec(base_model(cfg, mode, origin, safe), events) == run_spec(
            base_model(cfg, mode, origin, safe),
            events,
        ),
{
}

/// Law — reset independence: whatever state a pipeline was in before the
/// reset, the state it is reset into, and so every action it answers from
/// then on, depends only on the configuration, the traversal mode and the
/// caller-supplied origin and safe head — never on the discarded buffers.
pub proof fn lemma_reset_forgets_buffers(
    m1: PipelineModel,
    m2: PipelineModel,
    origin: BlockRef,
    safe: L2SafeHead,
    events: Seq<EventModel>,
)
    requires
        m1.cfg == m2.cfg,
        m1.mode == m2.mode,
    ensures
        reset_model(m1, origin, safe) == reset_model(m2, origin, safe),
        run_spec(reset_model(m1, origin, safe), events) == run_spec(
            reset_model(m2, origin, safe),
            events,
        ),
{
}

} // verus!
