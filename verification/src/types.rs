//! Core data model of the derivation pipeline: L1 block identities, the
//! rollup configuration shared by every stage, batches, frames, payload
//! attributes, and the four-tier severity taxonomy of stage outcomes.

use vstd::prelude::*;

verus! {

/// A byte vector's deep view is its view.
pub broadcast proof fn lemma_bytes_deep_view(v: Vec<u8>)
    ensures
        #[trigger] v.deep_view() == v@,
{
    assert(v.deep_view() =~= v@);
}

/// Identity of one L1 block: hash, number, timestamp and parent hash.
///
/// Block hashes are carried as 64-bit identities; only their equality is
/// ever consulted by the pipeline.
#[derive(Clone, Copy, PartialEq, Eq, Structural, Debug)]
pub struct BlockRef {
    pub hash: u64,
    pub number: u64,
    pub timestamp: u64,
    pub parent_hash: u64,
}

/// The L1 block that anchors a span of L2 blocks for deposit and validity
/// purposes.
#[derive(Clone, Copy, PartialEq, Eq, Structural, Debug)]
pub struct EpochRef {
    pub number: u64,
    pub hash: u64,
}

/// The most recent L2 block considered derived with respect to the L1 data
/// consumed so far.
#[derive(Clone, Copy, PartialEq, Eq, Structural, Debug)]
pub struct L2SafeHead {
    pub number: u64,
    pub timestamp: u64,
    pub epoch_number: u64,
}

/// Immutable chain parameters, constructed once at pipeline build time and
/// shared read-only by every stage.
#[derive(Clone, Copy, PartialEq, Eq, Structural, Debug)]
pub struct RollupConfig {
    pub chain_id: u64,
    /// L1 block the chain starts from.
    pub genesis_l1: BlockRef,
    /// L2 head the chain starts from.
    pub genesis_l2: L2SafeHead,
    /// Seconds between consecutive L2 blocks.
    pub l2_block_time: u64,
    /// Number of L1 blocks a channel may stay open before it is evicted.
    pub max_channel_duration: u64,
    /// How far (in L1 block numbers) a batch epoch may run ahead of the
    /// current origin.
    pub max_sequencer_drift: u64,
    /// Upper bound on the decompressed size of one channel payload.
    pub max_channel_payload: usize,
    /// How many consecutive data-availability fetch failures are retried
    /// before the pipeline halts.
    pub da_retry_budget: u64,
    /// Fee recipient placed into every produced attributes value.
    pub fee_recipient: u64,
    /// Gas limit placed into every produced attributes value.
    pub gas_limit: u64,
}

/// Four-tier severity taxonomy for stage outcomes.
#[derive(Clone, Copy, PartialEq, Eq, Structural, Debug)]
pub enum Signal {
    /// Transient: retry the pull later.
    NotEnoughData,
    /// Localized corruption: the offending unit is discarded, sibling state
    /// kept. Resolved inside the stage that detects it; never escapes to the
    /// pipeline's caller.
    Flush,
    /// Origin-level divergence: every stage must discard buffered state and
    /// restart from a caller-supplied origin.
    Reset,
    /// Unrecoverable: the pipeline halts and must be rebuilt.
    Critical,
}

/// Smallest on-chain unit of channel data, tagged with a channel id and a
/// sequence number.
#[derive(Clone, PartialEq, Eq, Debug)]
pub struct Frame {
    pub channel_id: u64,
    pub number: u16,
    pub data: Vec<u8>,
    pub is_last: bool,
}

/// Mathematical value of a [`Frame`].
#[verifier::ext_equal]
pub struct FrameModel {
    pub channel_id: u64,
    pub number: u16,
    pub data: Seq<u8>,
    pub is_last: bool,
}

impl View for Frame {
    type V = FrameModel;

    open spec fn view(&self) -> FrameModel {
        FrameModel {
            channel_id: self.channel_id,
            number: self.number,
            data: self.data@,
            is_last: self.is_last,
        }
    }
}

impl DeepView for Frame {
    type V = FrameModel;

    open spec fn deep_view(&self) -> FrameModel {
        self.view()
    }
}

/// One decoded L2 transaction batch: the L1 epoch it is anchored to, its L2
/// timestamp, and its transaction list.
#[derive(Clone, PartialEq, Eq, Debug)]
pub struct Batch {
    pub epoch_number: u64,
    pub epoch_hash: u64,
    pub timestamp: u64,
    pub transactions: Vec<Vec<u8>>,
}

/// Mathematical value of a [`Batch`].
#[verifier::ext_equal]
pub struct BatchModel {
    pub epoch_number: u64,
    pub epoch_hash: u64,
    pub timestamp: u64,
    pub transactions: Seq<Seq<u8>>,
}

impl View for Batch {
    type V = BatchModel;

    open spec fn view(&self) -> BatchModel {
        BatchModel {
            epoch_number: self.epoch_number,
            epoch_hash: self.epoch_hash,
            timestamp: self.timestamp,
            transactions: self.transactions.deep_view(),
        }
    }
}

impl DeepView for Batch {
    type V = BatchModel;

    open spec fn deep_view(&self) -> BatchModel {
        self.view()
    }
}

/// Inputs sufficient to build one L2 block.
#[derive(Clone, PartialEq, Eq, Debug)]
pub struct PayloadAttributes {
    pub timestamp: u64,
    /// PrevRandao-equivalent randomness, taken from the epoch's block identity.
    pub prev_randao: u64,
    pub fee_recipient: u64,
    pub gas_limit: u64,
    pub epoch_number: u64,
    pub epoch_hash: u64,
    /// Deposit transactions first, then sequencer transactions.
    pub transactions: Vec<Vec<u8>>,
    pub no_tx_pool: bool,
    /// True when this value was synthesized for a slot with no batch, so the
    /// L2 chain still advances one slot.
    pub deposits_only: bool,
}

/// Mathematical value of a [`PayloadAttributes`].
#[verifier::ext_equal]
pub struct AttributesModel {
    pub timestamp: u64,
    pub prev_randao: u64,
    pub fee_recipient: u64,
    pub gas_limit: u64,
    pub epoch_number: u64,
    pub epoch_hash: u64,
    pub transactions: Seq<Seq<u8>>,
    pub no_tx_pool: bool,
    pub deposits_only: bool,
}

impl View for PayloadAttributes {
    type V = AttributesModel;

    open spec fn view(&self) -> AttributesModel {
        AttributesModel {
            timestamp: self.timestamp,
            prev_randao: self.prev_randao,
            fee_recipient: self.fee_recipient,
            gas_limit: self.gas_limit,
            epoch_number: self.epoch_number,
            epoch_hash: self.epoch_hash,
            transactions: self.transactions.deep_view(),
            no_tx_pool: self.no_tx_pool,
            deposits_only: self.deposits_only,
        }
    }
}

/// Error returned when the pipeline is built with a required configuration
/// value omitted; each variant names the missing field.
#[derive(Clone, Copy, PartialEq, Eq, Structural, Debug)]
pub enum PipelineBuildError {
    MissingRollupConfig,
    MissingOrigin,
    MissingChainProvider,
    MissingL2ChainProvider,
    MissingDapSource,
    MissingBuilder,
}

} // verus!
