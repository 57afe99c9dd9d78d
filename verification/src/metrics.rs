//! Pre-registration plan for the managed-mode RPC client's metrics.
//!
//! The crate computes what to register — which metrics are described with
//! which unit, and which metric/method label combinations are initialized
//! to zero so they can be queried immediately — and the caller hands the
//! plan to its metrics recorder.

use vstd::prelude::*;

verus! {

/// The metrics kept for the managed-mode RPC client.
#[derive(Clone, Copy, PartialEq, Eq, Structural, Debug)]
pub enum MetricId {
    /// Counter of successful RPC requests, labelled by method.
    RequestsSuccessTotal,
    /// Counter of failed RPC requests, labelled by method.
    RequestsErrorTotal,
    /// Histogram of RPC request durations, labelled by method.
    RequestDurationSeconds,
}

/// Unit attached to a described metric.
#[derive(Clone, Copy, PartialEq, Eq, Structural, Debug)]
pub enum MetricUnit {
    Count,
    Seconds,
}

/// One metric description.
#[derive(Clone, Copy, PartialEq, Eq, Structural, Debug)]
pub struct MetricDescription {
    pub metric: MetricId,
    pub unit: MetricUnit,
}

/// The managed-mode RPC methods whose label combinations are
/// pre-registered.
#[derive(Clone, Copy, PartialEq, Eq, Structural, Debug)]
pub enum RpcMethod {
    ChainId,
    SubscribeEvents,
    FetchReceipts,
    OutputV0AtTimestamp,
    PendingOutputV0AtTimestamp,
    L2BlockRefByTimestamp,
    BlockRefByNumber,
    ResetPreInterop,
    Reset,
    InvalidateBlock,
    ProvideL1,
    UpdateFinalized,
    UpdateCrossUnsafe,
    UpdateCrossSafe,
}

/// One metric/method label combination to initialize to zero.
#[derive(Clone, Copy, PartialEq, Eq, Structural, Debug)]
pub struct ZeroEntry {
    pub metric: MetricId,
    pub method: RpcMethod,
}

/// Every managed-mode RPC method, in registration order.
pub open spec fn method_list() -> Seq<RpcMethod> {
    seq![
        RpcMethod::ChainId,
        RpcMethod::SubscribeEvents,
        RpcMethod::FetchReceipts,
        RpcMethod::OutputV0AtTimestamp,
        RpcMethod::PendingOutputV0AtTimestamp,
        RpcMethod::L2BlockRefByTimestamp,
        RpcMethod::BlockRefByNumber,
        RpcMethod::ResetPreInterop,
        RpcMethod::Reset,
        RpcMethod::InvalidateBlock,
        RpcMethod::ProvideL1,
        RpcMethod::UpdateFinalized,
        RpcMethod::UpdateCrossUnsafe,
        RpcMethod::UpdateCrossSafe,
    ]
}

/// The three metric descriptions, in registration order.
pub open spec fn describe_list() -> Seq<MetricDescription> {
    seq![
        MetricDescription { metric: MetricId::RequestsSuccessTotal, unit: MetricUnit::Count },
        MetricDescription { metric: MetricId::RequestsErrorTotal, unit: MetricUnit::Count },
        MetricDescription {
            metric: MetricId::RequestDurationSeconds,
            unit: MetricUnit::Seconds,
        },
    ]
}

/// The metric pre-registered in position `k` of each method's three
/// entries.
pub open spec fn metric_at(k: int) -> MetricId {
    if k == 0 {
        MetricId::RequestsSuccessTotal
    } else if k == 1 {
        MetricId::RequestsErrorTotal
    } else {
        MetricId::RequestDurationSeconds
    }
}

/// Container for the metrics plan.
pub struct Metrics;

impl Metrics {
    /// The metric descriptions to register.
    pub fn describe() -> (r: Vec<MetricDescription>)
        ensures
            r@ == describe_list(),
    {
        let mut r: Vec<MetricDescription> = Vec::new();
        r.push(MetricDescription { metric: MetricId::RequestsSuccessTotal, unit: MetricUnit::Count });
        r.push(MetricDescription { metric: MetricId::RequestsErrorTotal, unit: MetricUnit::Count });
        r.push(
            MetricDescription { metric: MetricId::RequestDurationSeconds, unit: MetricUnit::Seconds },
        );
        assert(r@ =~= describe_list());
        r
    }

    /// Every managed-mode RPC method, in registration order.
    pub fn rpc_methods() -> (r: Vec<RpcMethod>)
        ensures
            r@ == method_list(),
    {
        let mut r: Vec<RpcMethod> = Vec::new();
        r.push(RpcMethod::ChainId);
        r.push(RpcMethod::SubscribeEvents);
        r.push(RpcMethod::FetchReceipts);
        r.push(RpcMethod::OutputV0AtTimestamp);
        r.push(RpcMethod::PendingOutputV0AtTimestamp);
        r.push(RpcMethod::L2BlockRefByTimestamp);
        r.push(RpcMethod::BlockRefByNumber);
        r.push(RpcMethod::ResetPreInterop);
        r.push(RpcMethod::Reset);
        r.push(RpcMethod::InvalidateBlock);
        r.push(RpcMethod::ProvideL1);
        r.push(RpcMethod::UpdateFinalized);
        r.push(RpcMethod::UpdateCrossUnsafe);
        r.push(RpcMethod::UpdateCrossSafe);
        assert(r@ =~= method_list());
        r
    }

    /// The label combinations to initialize to zero: for each method, in
    /// order, its success counter, error counter and duration histogram.
    pub fn zero() -> (r: Vec<ZeroEntry>)
        ensures
            r@.len() == 3 * method_list().len(),
            forall|i: int|
                0 <= i < r@.len() ==> r@[i] == (ZeroEntry {
                    metric: metric_at(i % 3),
                    method: method_list()[i / 3],
                }),
    {
        let methods = Metrics::rpc_methods();
        let mut r: Vec<ZeroEntry> = Vec::new();
        let mut m: usize = 0;
        while m < methods.len()
            invariant
                m <= method_list().len(),
                methods@ == method_list(),
                r@.len() == 3 * m,
                forall|i: int|
                    0 <= i < r@.len() ==> r@[i] == (ZeroEntry {
                        metric: metric_at(i % 3),
                        method: method_list()[i / 3],
                    }),
            decreases methods@.len() - m,
        {
            let method = methods[m];
            r.push(ZeroEntry { metric: MetricId::RequestsSuccessTotal, method });
            r.push(ZeroEntry { metric: MetricId::RequestsErrorTotal, method });
            r.push(ZeroEntry { metric: MetricId::RequestDurationSeconds, method });
            proof {
                assert forall|i: int|
                    0 <= i < r@.len() implies r@[i] == (ZeroEntry {
                        metric: metric_at(i % 3),
                        method: method_list()[i / 3],
                    }) by {
                    if 3 * (m as int) <= i {
                        assert(i / 3 == m as int && i % 3 == i - 3 * (m as int))
                            by (nonlinear_arith)
                            requires
                                3 * (m as int) <= i < 3 * (m as int) + 3,
                        ;
                    }
                }
            }
            m = m + 1;
        }
        r
    }

    /// The whole plan: descriptions to register and label combinations to
    /// initialize to zero.
    pub fn init() -> (r: (Vec<MetricDescription>, Vec<ZeroEntry>))
        ensures
            r.0@ == describe_list(),
            r.1@.len() == 3 * method_list().len(),
            forall|i: int|
                0 <= i < r.1@.len() ==> r.1@[i] == (ZeroEntry {
                    metric: metric_at(i % 3),
                    method: method_list()[i / 3],
                }),
    {
        (Metrics::describe(), Metrics::zero())
    }
}

} // verus!
