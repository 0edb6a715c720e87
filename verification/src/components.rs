//! The parts that a node is built from.
use vstd::prelude::*;

verus! {

/// Makes the EVM configuration of a node.
#[derive(Clone, Copy, Debug)]
#[non_exhaustive]
pub struct N42ExecutorBuilder;

impl Default for N42ExecutorBuilder {
    fn default() -> (builder: Self)
        ensures
            builder == N42ExecutorBuilder,
    {
        N42ExecutorBuilder
    }
}

/// How headers of the chain look.
#[derive(Clone, Copy, Debug, PartialEq, Eq, Structural)]
pub enum N42HeaderProfile {
    Ethereum,
    Gov5H2,
}

/// Decides how a node checks headers.
#[derive(Clone, Copy, Debug, PartialEq, Eq, Structural)]
#[non_exhaustive]
pub struct N42ConsensusBuilder {
    /// The validators are known.
    pub has_validator_set: bool,
    /// The validators of other epochs can be looked up.
    pub has_validator_set_resolver: bool,
    pub header_profile: N42HeaderProfile,
}

/// How a node checks headers.
#[derive(Clone, Copy, Debug, PartialEq, Eq, Structural)]
pub struct ConsensusPlan {
    /// Certificates are checked against the validators.
    pub verifies_certificates: bool,
    /// The validators of other epochs are looked up.
    pub resolves_validator_sets: bool,
    pub header_profile: N42HeaderProfile,
    /// Each header's link to its parent's committee evidence is checked.
    pub checks_committee_evidence: bool,
}

impl Default for N42ConsensusBuilder {
    fn default() -> (builder: Self)
        ensures
            builder == (N42ConsensusBuilder {
                has_validator_set: false,
                has_validator_set_resolver: false,
                header_profile: N42HeaderProfile::Ethereum,
            }),
    {
        Self::new(false)
    }
}

impl N42ConsensusBuilder {
    /// A builder for Ethereum headers, with validators or without.
    pub fn new(has_validator_set: bool) -> (builder: Self)
        ensures
            builder == (N42ConsensusBuilder {
                has_validator_set,
                has_validator_set_resolver: false,
                header_profile: N42HeaderProfile::Ethereum,
            }),
    {
        N42ConsensusBuilder {
            has_validator_set,
            has_validator_set_resolver: false,
            header_profile: N42HeaderProfile::Ethereum,
        }
    }

    /// Lets the validators of other epochs be looked up.
    pub fn with_validator_set_resolver(self) -> (builder: Self)
        ensures
            builder == (N42ConsensusBuilder { has_validator_set_resolver: true, ..self }),
    {
        N42ConsensusBuilder { has_validator_set_resolver: true, ..self }
    }

    /// Sets how headers look.
    pub fn with_header_profile(self, header_profile: N42HeaderProfile) -> (builder: Self)
        ensures
            builder == (N42ConsensusBuilder { header_profile, ..self }),
    {
        N42ConsensusBuilder { header_profile, ..self }
    }

    /// Whether the genesis is asked for a committee pool.
    pub fn needs_committee_pool(&self) -> (needs: bool)
        ensures
            needs == (self.header_profile == N42HeaderProfile::Gov5H2),
    {
        self.header_profile == N42HeaderProfile::Gov5H2
    }

    /// How the node checks headers. Without validators certificates are not
    /// checked, and nothing is looked up; committee evidence is checked where
    /// the profile has it and the genesis enables a pool.
    pub fn build_consensus(&self, committee_pool_enabled: bool) -> (plan: ConsensusPlan)
        ensures
            plan == (ConsensusPlan {
                verifies_certificates: self.has_validator_set,
                resolves_validator_sets: self.has_validator_set && self.has_validator_set_resolver,
                header_profile: self.header_profile,
                checks_committee_evidence: self.header_profile == N42HeaderProfile::Gov5H2
                    && committee_pool_enabled,
            }),
    {
        ConsensusPlan {
            verifies_certificates: self.has_validator_set,
            resolves_validator_sets: self.has_validator_set && self.has_validator_set_resolver,
            header_profile: self.header_profile,
            checks_committee_evidence: self.needs_committee_pool() && committee_pool_enabled,
        }
    }
}

} // verus!
