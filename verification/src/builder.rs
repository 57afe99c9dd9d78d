//! Construction of a derivation pipeline.
//!
//! Six configuration values are mandatory: the rollup configuration, the
//! starting origin, and the four collaborator providers. Building with any
//! one omitted fails with an error naming the missing field. The traversal
//! strategy — polling or indexed — is chosen by which build method is
//! called and is fixed for the pipeline's lifetime.

use vstd::prelude::*;

use crate::pipeline::{
    base_model, reset_model, step_spec, Action, ActionModel, Event, PipelineState, TraversalMode,
};
use crate::types::{BlockRef, L2SafeHead, PipelineBuildError, RollupConfig, Signal};

verus! {

/// The derivation pipeline: the verified state machine together with the
/// collaborator providers the caller performs its actions against.
pub struct DerivationPipeline<B, P, T, D> {
    /// The attributes-builder collaborator.
    pub builder: B,
    /// The L1 chain provider.
    pub chain_provider: P,
    /// The L2 chain provider.
    pub l2_chain_provider: T,
    /// The data-availability provider.
    pub dap_source: D,
    /// The verified derivation state machine.
    pub state: PipelineState,
}

impl<B, P, T, D> DerivationPipeline<B, P, T, D> {
    /// One pull of the state machine; the providers are untouched.
    pub fn advance(&mut self, event: Event) -> (r: Action)
        ensures
            final(self).state@ == step_spec(old(self).state@, event@).0,
            r@ == step_spec(old(self).state@, event@).1,
            !(r@ matches ActionModel::Signal { signal: Signal::Flush }),
    {
        self.state.advance(event)
    }

    /// Discards all buffered state and restarts traversal at the
    /// caller-supplied origin and safe head — the entry point for a detected
    /// L1 reorganization.
    pub fn reset(&mut self, origin: BlockRef, safe: L2SafeHead)
        ensures
            final(self).state@ == reset_model(old(self).state@, origin, safe),
    {
        self.state.reset(origin, safe)
    }
}

/// Collects the six mandatory configuration values of a
/// [`DerivationPipeline`] before one is built.
pub struct PipelineBuilder<B, P, T, D> {
    pub l2_chain_provider: Option<T>,
    pub dap_source: Option<D>,
    pub chain_provider: Option<P>,
    pub builder: Option<B>,
    pub origin: Option<BlockRef>,
    pub rollup_config: Option<RollupConfig>,
}

impl<B, P, T, D> Default for PipelineBuilder<B, P, T, D> {
    /// A builder with every value still to be set.
    fn default() -> (r: Self)
        ensures
            r.l2_chain_provider is None,
            r.dap_source is None,
            r.chain_provider is None,
            r.builder is None,
            r.origin is None,
            r.rollup_config is None,
    {
        PipelineBuilder {
            l2_chain_provider: None,
            dap_source: None,
            chain_provider: None,
            builder: None,
            origin: None,
            rollup_config: None,
        }
    }
}

impl<B, P, T, D> PipelineBuilder<B, P, T, D> {
    /// Creates a new pipeline builder with every value still to be set.
    pub fn new() -> (r: Self)
        ensures
            r.l2_chain_provider is None,
            r.dap_source is None,
            r.chain_provider is None,
            r.builder is None,
            r.origin is None,
            r.rollup_config is None,
    {
        Self::default()
    }

    /// Sets the rollup config for the pipeline.
    pub fn rollup_config(self, rollup_config: RollupConfig) -> (r: Self)
        ensures
            r.rollup_config == Some(rollup_config),
            r.l2_chain_provider == self.l2_chain_provider,
            r.dap_source == self.dap_source,
            r.chain_provider == self.chain_provider,
            r.builder == self.builder,
            r.origin == self.origin,
    {
        PipelineBuilder { rollup_config: Some(rollup_config), ..self }
    }

    /// Sets the origin L1 block for the pipeline.
    pub fn origin(self, origin: BlockRef) -> (r: Self)
        ensures
            r.origin == Some(origin),
            r.l2_chain_provider == self.l2_chain_provider,
            r.dap_source == self.dap_source,
            r.chain_provider == self.chain_provider,
            r.builder == self.builder,
            r.rollup_config == self.rollup_config,
    {
        PipelineBuilder { origin: Some(origin), ..self }
    }

    /// Sets the data availability provider for the pipeline.
    pub fn dap_source(self, dap_source: D) -> (r: Self)
        ensures
            r.dap_source == Some(dap_source),
            r.l2_chain_provider == self.l2_chain_provider,
            r.chain_provider == self.chain_provider,
            r.builder == self.builder,
            r.origin == self.origin,
            r.rollup_config == self.rollup_config,
    {
        PipelineBuilder { dap_source: Some(dap_source), ..self }
    }

    /// Sets the attributes builder for the pipeline.
    pub fn builder(self, builder: B) -> (r: Self)
        ensures
            r.builder == Some(builder),
            r.l2_chain_provider == self.l2_chain_provider,
            r.dap_source == self.dap_source,
            r.chain_provider == self.chain_provider,
            r.origin == self.origin,
            r.rollup_config == self.rollup_config,
    {
        PipelineBuilder { builder: Some(builder), ..self }
    }

    /// Sets the l2 chain provider for the pipeline.
    pub fn l2_chain_provider(self, l2_chain_provider: T) -> (r: Self)
        ensures
            r.l2_chain_provider == Some(l2_chain_provider),
            r.dap_source == self.dap_source,
            r.chain_provider == self.chain_provider,
            r.builder == self.builder,
            r.origin == self.origin,
            r.rollup_config == self.rollup_config,
    {
        PipelineBuilder { l2_chain_provider: Some(l2_chain_provider), ..self }
    }

    /// Sets the chain provider for the pipeline.
    pub fn chain_provider(self, chain_provider: P) -> (r: Self)
        ensures
            r.chain_provider == Some(chain_provider),
            r.l2_chain_provider == self.l2_chain_provider,
            r.dap_source == self.dap_source,
            r.builder == self.builder,
            r.origin == self.origin,
            r.rollup_config == self.rollup_config,
    {
        PipelineBuilder { chain_provider: Some(chain_provider), ..self }
    }

    /// Builds the pipeline with the given traversal strategy, or reports the
    /// first missing configuration value by name.
    fn build_with(self, mode: TraversalMode) -> (r: Result<
        DerivationPipeline<B, P, T, D>,
        PipelineBuildError,
    >)
        ensures
            self.rollup_config is None ==> (r matches Err(e) && e
                == PipelineBuildError::MissingRollupConfig),
            self.rollup_config is Some && self.chain_provider is None ==> (r matches Err(e) && e
                == PipelineBuildError::MissingChainProvider),
            self.rollup_config is Some && self.chain_provider is Some
                && self.l2_chain_provider is None ==> (r matches Err(e) && e
                == PipelineBuildError::MissingL2ChainProvider),
            self.rollup_config is Some && self.chain_provider is Some
                && self.l2_chain_provider is Some && self.dap_source is None ==> (r matches Err(e)
                && e == PipelineBuildError::MissingDapSource),
            self.rollup_config is Some && self.chain_provider is Some
                && self.l2_chain_provider is Some && self.dap_source is Some
                && self.builder is None ==> (r matches Err(e) && e
                == PipelineBuildError::MissingBuilder),
            self.rollup_config is Some && self.chain_provider is Some
                && self.l2_chain_provider is Some && self.dap_source is Some
                && self.builder is Some && self.origin is None ==> (r matches Err(e) && e
                == PipelineBuildError::MissingOrigin),
            self.rollup_config is Some && self.chain_provider is Some
                && self.l2_chain_provider is Some && self.dap_source is Some
                && self.builder is Some && self.origin is Some ==> (r matches Ok(p) && p.state@
                == base_model(
                self.rollup_config->0,
                mode,
                self.origin->0,
                self.rollup_config->0.genesis_l2,
            ) && p.builder == self.builder->0 && p.chain_provider == self.chain_provider->0
                && p.l2_chain_provider == self.l2_chain_provider->0 && p.dap_source
                == self.dap_source->0),
    {
        let PipelineBuilder {
            l2_chain_provider,
            dap_source,
            chain_provider,
            builder,
            origin,
            rollup_config,
        } = self;
        let cfg = match rollup_config {
            Some(cfg) => cfg,
            None => {
                return Err(PipelineBuildError::MissingRollupConfig);
            },
        };
        let cp = match chain_provider {
            Some(cp) => cp,
            None => {
                return Err(PipelineBuildError::MissingChainProvider);
            },
        };
        let l2p = match l2_chain_provider {
            Some(l2p) => l2p,
            None => {
                return Err(PipelineBuildError::MissingL2ChainProvider);
            },
        };
        let dap = match dap_source {
            Some(dap) => dap,
            None => {
                return Err(PipelineBuildError::MissingDapSource);
            },
        };
        let b = match builder {
            Some(b) => b,
            None => {
                return Err(PipelineBuildError::MissingBuilder);
            },
        };
        let og = match origin {
            Some(og) => og,
            None => {
                return Err(PipelineBuildError::MissingOrigin);
            },
        };
        let state = PipelineState::new(cfg, mode, og);
        Ok(
            DerivationPipeline {
                builder: b,
                chain_provider: cp,
                l2_chain_provider: l2p,
                dap_source: dap,
                state,
            },
        )
    }

    /// Builds a derivation pipeline that polls for new L1 heads. Every one
    /// of the six configuration values must have been set; the first missing
    /// one is reported by name.
    pub fn build_polled(self) -> (r: Result<DerivationPipeline<B, P, T, D>, PipelineBuildError>)
        ensures
            self.rollup_config is None ==> (r matches Err(e) && e
                == PipelineBuildError::MissingRollupConfig),
            self.rollup_config is Some && self.chain_provider is None ==> (r matches Err(e) && e
                == PipelineBuildError::MissingChainProvider),
            self.rollup_config is Some && self.chain_provider is Some
                && self.l2_chain_provider is None ==> (r matches Err(e) && e
                == PipelineBuildError::MissingL2ChainProvider),
            self.rollup_config is Some && self.chain_provider is Some
                && self.l2_chain_provider is Some && self.dap_source is None ==> (r matches Err(e)
                && e == PipelineBuildError::MissingDapSource),
            self.rollup_config is Some && self.chain_provider is Some
                && self.l2_chain_provider is Some && self.dap_source is Some
                && self.builder is None ==> (r matches Err(e) && e
                == PipelineBuildError::MissingBuilder),
            self.rollup_config is Some && self.chain_provider is Some
                && self.l2_chain_provider is Some && self.dap_source is Some
                && self.builder is Some && self.origin is None ==> (r matches Err(e) && e
                == PipelineBuildError::MissingOrigin),
            self.rollup_config is Some && self.chain_provider is Some
                && self.l2_chain_provider is Some && self.dap_source is Some
                && self.builder is Some && self.origin is Some ==> (r matches Ok(p) && p.state@
                == base_model(
                self.rollup_config->0,
                TraversalMode::Polling,
                self.origin->0,
                self.rollup_config->0.genesis_l2,
            ) && p.builder == self.builder->0 && p.chain_provider == self.chain_provider->0
                && p.l2_chain_provider == self.l2_chain_provider->0 && p.dap_source
                == self.dap_source->0),
    {
        self.build_with(TraversalMode::Polling)
    }

    /// Builds a derivation pipeline that walks L1 by explicit block number.
    /// Every one of the six configuration values must have been set; the
    /// first missing one is reported by name.
    pub fn build_indexed(self) -> (r: Result<DerivationPipeline<B, P, T, D>, PipelineBuildError>)
        ensures
            self.rollup_config is None ==> (r matches Err(e) && e
                == PipelineBuildError::MissingRollupConfig),
            self.rollup_config is Some && self.chain_provider is None ==> (r matches Err(e) && e
                == PipelineBuildError::MissingChainProvider),
            self.rollup_config is Some && self.chain_provider is Some
                && self.l2_chain_provider is None ==> (r matches Err(e) && e
                == PipelineBuildError::MissingL2ChainProvider),
            self.rollup_config is Some && self.chain_provider is Some
                && self.l2_chain_provider is Some && self.dap_source is None ==> (r matches Err(e)
                && e == PipelineBuildError::MissingDapSource),
            self.rollup_config is Some && self.chain_provider is Some
                && self.l2_chain_provider is Some && self.dap_source is Some
                && self.builder is None ==> (r matches Err(e) && e
                == PipelineBuildError::MissingBuilder),
            self.rollup_config is Some && self.chain_provider is Some
                && self.l2_chain_provider is Some && self.dap_source is Some
                && self.builder is Some && self.origin is None ==> (r matches Err(e) && e
                == PipelineBuildError::MissingOrigin),
            self.rollup_config is Some && self.chain_provider is Some
                && self.l2_chain_provider is Some && self.dap_source is Some
                && self.builder is Some && self.origin is Some ==> (r matches Ok(p) && p.state@
                == base_model(
                self.rollup_config->0,
                TraversalMode::Indexed,
                self.origin->0,
                self.rollup_config->0.genesis_l2,
            ) && p.builder == self.builder->0 && p.chain_provider == self.chain_provider->0
                && p.l2_chain_provider == self.l2_chain_provider->0 && p.dap_source
                == self.dap_source->0),
    {
        self.build_with(TraversalMode::Indexed)
    }
}

} // verus!
