use spinoza::audit::{audit_spec, AuditJsonOutput, AuditReport, AuditStatus};
use spinoza::capability::{Capability, CapabilityRegistry, CapabilitySet};
use spinoza::spec::{BcSpec, CaseSpec, EquationSpec, FieldKind, FieldSpec, MeshSpec, ProblemSpec, SolverSpec, Space};

fn poisson_minimal_ok() -> CaseSpec {
    CaseSpec {
        problem: ProblemSpec { name: "Poisson 2D minimal".to_string() },
        mesh: MeshSpec { dimension: 2 },
        fields: vec![FieldSpec { name: "u".to_string(), kind: FieldKind::Scalar, space: Space::H1, complex: false }],
        equation: EquationSpec { eq_type: "poisson".to_string() },
        bcs: vec![BcSpec { bc_type: "dirichlet".to_string(), field: "u".to_string() }],
        solver: SolverSpec { linear: "cg".to_string(), precond: "jacobi".to_string() },
    }
}

fn poisson_invalid() -> CaseSpec {
    let mut spec = poisson_minimal_ok();
    spec.problem.name = "Poisson invalid".to_string();
    spec.mesh.dimension = 4;
    spec.equation.eq_type = "navier_stokes".to_string();
    spec
}

#[test]
fn golden_valid_spec_ok() {
    let spec = poisson_minimal_ok();
    let registry = CapabilityRegistry::default_registry();
    let report = audit_spec(&spec, &registry).expect("spec should parse and validate");

    assert!(report.is_ok(), "expected all capabilities available");

    let rendered = report.render();

    let expected = [
        "Problem: Poisson 2D minimal\n",
        "Required capabilities:\n",
        "  BC_Dirichlet\n",
        "  Operator_Laplacian\n",
        "  Precond_Jacobi\n",
        "  Solver_CG\n",
        "  Space_H1Scalar\n",
        "All capabilities available.\n",
    ]
    .concat();

    assert_eq!(rendered, expected, "golden output mismatch:\n{rendered}");
}

#[test]
fn golden_invalid_spec_fails_validation() {
    let spec = poisson_invalid();
    let registry = CapabilityRegistry::default_registry();
    let result = audit_spec(&spec, &registry);

    assert!(result.is_err(), "expected validation error");
    let msg = result.err().unwrap().message();

    assert!(msg.contains("dimension must be 2 or 3"), "unexpected error message: {msg}");
}

#[test]
fn audit_against_empty_registry_lists_missing_sorted() {
    let spec = poisson_minimal_ok();
    let registry = CapabilityRegistry::empty();
    let report = audit_spec(&spec, &registry).unwrap();
    assert!(!report.is_ok());
    assert_eq!(
        report.sorted_missing_capability_names(),
        vec!["BC_Dirichlet", "Operator_Laplacian", "Precond_Jacobi", "Solver_CG", "Space_H1Scalar"]
    );
    let rendered = report.render();
    let tail = [
        "Missing capabilities:\n",
        "  BC_Dirichlet\n",
        "  Operator_Laplacian\n",
        "  Precond_Jacobi\n",
        "  Solver_CG\n",
        "  Space_H1Scalar\n",
    ]
    .concat();
    assert!(rendered.ends_with(&tail));
}

#[test]
fn json_output_for_success_and_missing() {
    let spec = poisson_minimal_ok();
    let registry = CapabilityRegistry::default_registry();
    let report = audit_spec(&spec, &registry).unwrap();
    let out = AuditJsonOutput::from_success("spec/poisson_minimal_ok.toml", &report);
    assert_eq!(out.status, AuditStatus::Passed);
    assert_eq!(out.exit_code, 0);
    assert_eq!(out.problem_name, "Poisson 2D minimal");
    assert_eq!(out.case_path, "spec/poisson_minimal_ok.toml");
    assert_eq!(out.required_capabilities.len(), 5);
    assert!(out.missing_capabilities.is_empty());
    assert!(out.validation_errors.is_empty());

    let mut required = CapabilitySet::new();
    required.insert(Capability::SolverGMRES);
    required.insert(Capability::BcDirichlet);
    let mut missing = CapabilitySet::new();
    missing.insert(Capability::SolverGMRES);
    let report = AuditReport { problem_name: "p".to_string(), required, missing };
    let out = AuditJsonOutput::from_success("case.toml", &report);
    assert_eq!(out.status, AuditStatus::MissingCapabilities);
    assert_eq!(out.exit_code, 1);
    assert_eq!(out.required_capabilities, vec!["BC_Dirichlet", "Solver_GMRES"]);
    assert_eq!(out.missing_capabilities, vec!["Solver_GMRES"]);
}

#[test]
fn json_output_for_validation_error() {
    let out = AuditJsonOutput::from_validation_error("bad.toml", "validation error: x".to_string());
    assert_eq!(out.status, AuditStatus::ValidationError);
    assert_eq!(out.exit_code, 2);
    assert_eq!(out.problem_name, "");
    assert_eq!(out.case_path, "bad.toml");
    assert!(out.required_capabilities.is_empty());
    assert!(out.missing_capabilities.is_empty());
    assert_eq!(out.validation_errors, vec!["validation error: x".to_string()]);
}
