//! What the parts of a node are built with.
use crate::components::{N42ConsensusBuilder, N42HeaderProfile};
use crate::consensus_state::SharedConsensusState;
use crate::engine_validator::N42EngineValidatorBuilder;
use std::sync::Arc;
use vstd::prelude::*;

verus! {

/// How a node is configured, and the state that consensus shares with its parts.
#[derive(Clone, Debug)]
pub struct N42Node {
    pub consensus_state: Arc<SharedConsensusState>,
    /// The validators of other epochs can be looked up.
    pub has_validator_set_resolver: bool,
    pub header_profile: N42HeaderProfile,
}

impl N42Node {
    /// A node for Ethereum headers that knows its present validators only.
    pub fn new(consensus_state: Arc<SharedConsensusState>) -> (node: Self)
        ensures
            node == (N42Node {
                consensus_state,
                has_validator_set_resolver: false,
                header_profile: N42HeaderProfile::Ethereum,
            }),
    {
        N42Node {
            consensus_state,
            has_validator_set_resolver: false,
            header_profile: N42HeaderProfile::Ethereum,
        }
    }

    /// Lets the validators of other epochs be looked up.
    pub fn with_validator_set_resolver(self) -> (node: Self)
        ensures
            node == (N42Node { has_validator_set_resolver: true, ..self }),
    {
        N42Node { has_validator_set_resolver: true, ..self }
    }

    /// Sets how headers look.
    pub fn with_header_profile(self, header_profile: N42HeaderProfile) -> (node: Self)
        ensures
            node == (N42Node { header_profile, ..self }),
    {
        N42Node { header_profile, ..self }
    }

    /// What decides how the node checks headers. A node always has validators.
    pub fn consensus_builder(&self) -> (builder: N42ConsensusBuilder)
        ensures
            builder.has_validator_set,
            builder.has_validator_set_resolver == self.has_validator_set_resolver,
            builder.header_profile == self.header_profile,
    {
        let builder = N42ConsensusBuilder::new(true);
        let builder = if self.has_validator_set_resolver {
            builder.with_validator_set_resolver()
        } else {
            builder
        };
        builder.with_header_profile(self.header_profile)
    }

    /// What makes the validator of the node's payloads.
    pub fn engine_validator_builder(&self) -> (builder: N42EngineValidatorBuilder)
        ensures
            builder.profile() == self.header_profile,
    {
        N42EngineValidatorBuilder::new(self.header_profile)
    }
}

} // verus!
