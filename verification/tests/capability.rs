use spinoza::capability::{Capability, CapabilityRegistry, CapabilitySet};
use spinoza::error::{format_caps, SpinozaError};

#[test]
fn default_registry_contains_expected() {
    let reg = CapabilityRegistry::default_registry();
    let _ = reg.available();
}

#[test]
fn missing_reports_absent_caps() {
    let mut reg = CapabilityRegistry::empty();
    reg.register(Capability::SpaceH1Scalar);
    reg.register(Capability::OperatorLaplacian);
    reg.register(Capability::SolverCG);

    let mut required = CapabilitySet::new();
    required.insert(Capability::SpaceH1Scalar);
    required.insert(Capability::OperatorLaplacian);
    required.insert(Capability::SolverCG);

    let missing = reg.missing(&required);
    assert!(missing.is_empty());
}

#[test]
fn elasticity_capabilities_in_registry() {
    let cap_reg = CapabilityRegistry::default_registry();
    assert!(cap_reg.has(&Capability::OperatorElasticity), "registry should have OperatorElasticity");
    assert!(cap_reg.has(&Capability::SolverGMRES), "registry should have SolverGMRES");
    assert!(cap_reg.has(&Capability::SpaceH1Vector), "registry should have SpaceH1Vector");
}

#[test]
fn solver_capabilities_in_registry() {
    let cap_reg = CapabilityRegistry::default_registry();
    assert!(cap_reg.has(&Capability::SolverCG), "SolverCG should be in capability registry");
    assert!(cap_reg.has(&Capability::SolverGMRES), "SolverGMRES should be in capability registry");
}

#[test]
fn default_registry_is_union_of_catalog_capabilities() {
    let reg = CapabilityRegistry::default_registry();
    let all = reg.available().to_vec();
    assert_eq!(all.len(), 13);
}

#[test]
fn registered_capability_is_available_and_not_missing() {
    let mut reg = CapabilityRegistry::empty();
    assert!(!reg.has(&Capability::PrecondMG));
    reg.register(Capability::PrecondMG);
    assert!(reg.has(&Capability::PrecondMG));
    assert!(!reg.has(&Capability::PrecondJacobi));
    let mut required = CapabilitySet::new();
    required.insert(Capability::PrecondMG);
    required.insert(Capability::PrecondJacobi);
    let missing = reg.missing(&required);
    assert!(!missing.contains(&Capability::PrecondMG));
    assert!(missing.contains(&Capability::PrecondJacobi));
    assert_eq!(missing.len(), 1);
}

#[test]
fn missing_is_empty_exactly_when_covered() {
    let mut reg = CapabilityRegistry::empty();
    reg.register(Capability::SolverCG);
    let mut required = CapabilitySet::new();
    required.insert(Capability::SolverCG);
    assert!(reg.missing(&required).is_empty());
    required.insert(Capability::SolverGMRES);
    assert!(!reg.missing(&required).is_empty());
}

#[test]
fn capability_labels_and_indices() {
    assert_eq!(Capability::SpaceH1Scalar.label(), "Space_H1Scalar");
    assert_eq!(Capability::BcDirichlet.label(), "BC_Dirichlet");
    assert_eq!(Capability::BlockOperator2x2.label(), "BlockOperator_2x2");
    assert_eq!(Capability::EquationCoupledElliptic2x2.to_label_string(), "Equation_CoupledElliptic2x2");
    assert_eq!(Capability::SolverGMRES.label(), "Solver_GMRES");
    for i in 0..13usize {
        assert_eq!(Capability::from_index(i).index(), i);
    }
}

#[test]
fn capability_set_insert_and_order() {
    let mut s = CapabilitySet::new();
    assert!(s.is_empty());
    assert!(s.insert(Capability::SolverCG));
    assert!(!s.insert(Capability::SolverCG));
    assert!(s.insert(Capability::SpaceH1Scalar));
    let v = s.to_vec();
    assert_eq!(v, vec![Capability::SpaceH1Scalar, Capability::SolverCG]);
    assert_eq!(s.len(), 2);
    let mut other = CapabilitySet::new();
    other.insert(Capability::SolverCG);
    let d = s.difference(&other);
    assert_eq!(d.to_vec(), vec![Capability::SpaceH1Scalar]);
    let f = CapabilitySet::from_slice(&[Capability::PrecondMG, Capability::PrecondJacobi, Capability::PrecondMG]);
    assert_eq!(f.to_vec(), vec![Capability::PrecondJacobi, Capability::PrecondMG]);
}

#[test]
fn error_messages() {
    let mut caps = CapabilitySet::new();
    caps.insert(Capability::SolverGMRES);
    caps.insert(Capability::SpaceH1Scalar);
    assert_eq!(format_caps(&caps), "Space_H1Scalar, Solver_GMRES");
    assert_eq!(
        SpinozaError::MissingCapabilities(caps).message(),
        "missing capabilities: Space_H1Scalar, Solver_GMRES"
    );
    assert_eq!(SpinozaError::ParseError("bad".to_string()).message(), "failed to parse case spec: bad");
    assert_eq!(SpinozaError::ValidationError("x".to_string()).message(), "validation error: x");
    assert_eq!(SpinozaError::OperatorError("y".to_string()).message(), "operator error: y");
}
