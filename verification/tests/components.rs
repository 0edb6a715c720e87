use n42_node::components::{N42ConsensusBuilder, N42ExecutorBuilder, N42HeaderProfile};

#[test]
fn test_executor_builder_default() {
    let builder = N42ExecutorBuilder::default();
    assert!(format!("{:?}", builder).contains("N42ExecutorBuilder"));
}

#[test]
fn test_executor_builder_clone_copy() {
    let builder = N42ExecutorBuilder::default();
    let _ = (builder, builder);
}

#[test]
fn test_consensus_builder_default() {
    let builder = N42ConsensusBuilder::default();
    assert!(format!("{:?}", builder).contains("N42ConsensusBuilder"));
}

#[test]
fn test_consensus_builder_clone() {
    let builder = N42ConsensusBuilder::default();
    let _ = builder.clone();
}

#[test]
fn committee_evidence_is_checked_where_it_is_enabled() {
    let plain = N42ConsensusBuilder::new(true).with_validator_set_resolver();
    assert!(!plain.needs_committee_pool());
    let plan = plain.build_consensus(true);
    assert!(plan.verifies_certificates && plan.resolves_validator_sets);
    assert!(!plan.checks_committee_evidence);
    let gov5 = plain.with_header_profile(N42HeaderProfile::Gov5H2);
    assert!(gov5.needs_committee_pool());
    assert!(gov5.build_consensus(true).checks_committee_evidence);
    assert!(!gov5.build_consensus(false).checks_committee_evidence);
    let without = N42ConsensusBuilder::default().with_validator_set_resolver();
    let plan = without.build_consensus(true);
    assert!(!plan.verifies_certificates && !plan.resolves_validator_sets);
}
