use spinoza::audit::audit_spec;
use spinoza::capability::{Capability, CapabilityRegistry};
use spinoza::error::SpinozaError;
use spinoza::spec::{
    BcSpec, CaseSpec, CompiledPlan, EquationSpec, FieldKind, FieldSpec, MeshSpec, ProblemSpec, SolverSpec, Space,
};

fn field(name: &str, kind: FieldKind) -> FieldSpec {
    FieldSpec { name: name.to_string(), kind, space: Space::H1, complex: false }
}

fn bc(bc_type: &str, field: &str) -> BcSpec {
    BcSpec { bc_type: bc_type.to_string(), field: field.to_string() }
}

fn minimal_spec() -> CaseSpec {
    CaseSpec {
        problem: ProblemSpec { name: "unit test".to_string() },
        mesh: MeshSpec { dimension: 2 },
        fields: vec![field("u", FieldKind::Scalar)],
        equation: EquationSpec { eq_type: "poisson".to_string() },
        bcs: vec![bc("dirichlet", "u")],
        solver: SolverSpec { linear: "cg".to_string(), precond: "jacobi".to_string() },
    }
}

fn coupled_spec(dim: u8) -> CaseSpec {
    CaseSpec {
        problem: ProblemSpec { name: "coupled test".to_string() },
        mesh: MeshSpec { dimension: dim },
        fields: vec![field("u", FieldKind::Scalar), field("v", FieldKind::Scalar)],
        equation: EquationSpec { eq_type: "coupled_elliptic_2x2".to_string() },
        bcs: vec![bc("dirichlet", "u"), bc("dirichlet", "v")],
        solver: SolverSpec { linear: "block_pcg".to_string(), precond: "block_jacobi".to_string() },
    }
}

fn validation_message(spec: &CaseSpec) -> String {
    match spec.validate() {
        Err(SpinozaError::ValidationError(m)) => m,
        Err(other) => panic!("unexpected error: {}", other.message()),
        Ok(()) => panic!("validation should fail"),
    }
}

#[test]
fn validate_ok() {
    let spec = minimal_spec();
    assert!(spec.validate().is_ok(), "validation should pass");
}

#[test]
fn validate_bad_dimension() {
    let mut spec = minimal_spec();
    spec.mesh.dimension = 4;
    let err = spec.validate().unwrap_err();
    assert!(err.message().contains("dimension must be 2 or 3"));
}

#[test]
fn validate_bad_equation() {
    let mut spec = minimal_spec();
    spec.equation.eq_type = "navier_stokes".to_string();
    let err = spec.validate().unwrap_err();
    assert!(err.message().contains("not supported"));
}

#[test]
fn compiled_plan_from_spec() {
    let spec = minimal_spec();
    spec.validate().unwrap();
    let plan = CompiledPlan::from_spec(&spec);
    assert!(plan.required.contains(&Capability::SpaceH1Scalar));
    assert!(plan.required.contains(&Capability::OperatorLaplacian));
    assert!(plan.required.contains(&Capability::BcDirichlet));
    assert!(plan.required.contains(&Capability::SolverCG));
    assert!(plan.required.contains(&Capability::PrecondJacobi));
}

#[test]
fn coupled_spec_audit_passes() {
    let spec = coupled_spec(2);
    spec.validate().expect("coupled spec should validate");
    let plan = CompiledPlan::from_spec(&spec);
    let registry = CapabilityRegistry::default_registry();
    let missing = registry.missing(&plan.required);
    assert!(missing.is_empty(), "coupled spec has missing capabilities");
}

#[test]
fn validation_messages_name_the_first_problem() {
    let mut spec = minimal_spec();
    spec.mesh.dimension = 1;
    spec.equation.eq_type = "heat".to_string();
    assert_eq!(validation_message(&spec), "mesh.dimension must be 2 or 3, got 1");

    let mut spec = minimal_spec();
    spec.equation.eq_type = "heat".to_string();
    assert_eq!(
        validation_message(&spec),
        "equation.type 'heat' is not supported (allowed: poisson, coupled_elliptic_2x2, elasticity)"
    );

    let mut spec = minimal_spec();
    spec.bcs.push(bc("neumann", "u"));
    assert_eq!(validation_message(&spec), "bc type 'neumann' is not supported (allowed: dirichlet)");

    let mut spec = minimal_spec();
    spec.solver.linear = "bicgstab".to_string();
    assert_eq!(
        validation_message(&spec),
        "solver.linear 'bicgstab' is not supported (allowed: cg, block_pcg, gmres)"
    );

    let mut spec = minimal_spec();
    spec.solver.precond = "ilu".to_string();
    assert_eq!(
        validation_message(&spec),
        "solver.precond 'ilu' is not supported (allowed: jacobi, block_jacobi, mg)"
    );

    let mut spec = minimal_spec();
    spec.fields.clear();
    assert_eq!(validation_message(&spec), "at least one field is required");

    let mut spec = minimal_spec();
    spec.bcs.push(bc("dirichlet", "w"));
    assert_eq!(validation_message(&spec), "bc references unknown field 'w'");
}

#[test]
fn validated_plan_has_expected_shape() {
    let spec = coupled_spec(3);
    assert!(spec.validate().is_ok());
    let plan = CompiledPlan::from_spec(&spec);
    assert_eq!(plan.problem_name, "coupled test");
    let caps = plan.required.to_vec();
    assert_eq!(
        caps,
        vec![
            Capability::SpaceH1Scalar,
            Capability::OperatorLaplacian,
            Capability::BcDirichlet,
            Capability::BlockOperator2x2,
            Capability::PrecondBlockJacobi,
            Capability::SolverBlockPCG,
            Capability::EquationCoupledElliptic2x2,
        ]
    );
    assert!(!plan.required.contains(&Capability::OperatorElasticity));
    assert!(!plan.required.contains(&Capability::SolverGMRES));
}

#[test]
fn vector_fields_require_vector_space() {
    let mut spec = minimal_spec();
    spec.fields = vec![field("u", FieldKind::Vector)];
    spec.solver.precond = "mg".to_string();
    let plan = CompiledPlan::from_spec(&spec);
    assert!(plan.required.contains(&Capability::SpaceH1Vector));
    assert!(!plan.required.contains(&Capability::SpaceH1Scalar));
    assert!(plan.required.contains(&Capability::PrecondMG));
}

#[test]
fn audit_of_invalid_spec_reports_validation_error() {
    let mut spec = minimal_spec();
    spec.mesh.dimension = 5;
    let registry = CapabilityRegistry::default_registry();
    let err = audit_spec(&spec, &registry).unwrap_err();
    assert_eq!(err.message(), "validation error: mesh.dimension must be 2 or 3, got 5");
}

fn elasticity_spec(dim: u8, linear: &str) -> CaseSpec {
    CaseSpec {
        problem: ProblemSpec { name: "elasticity test".to_string() },
        mesh: MeshSpec { dimension: dim },
        fields: vec![field("displacement", FieldKind::Vector)],
        equation: EquationSpec { eq_type: "elasticity".to_string() },
        bcs: vec![bc("dirichlet", "displacement")],
        solver: SolverSpec { linear: linear.to_string(), precond: "jacobi".to_string() },
    }
}

#[test]
fn elasticity_specs_validate() {
    assert!(elasticity_spec(2, "cg").validate().is_ok(), "elasticity 2d spec should validate");
    assert!(elasticity_spec(3, "cg").validate().is_ok(), "elasticity 3d spec should validate");
    assert!(elasticity_spec(2, "gmres").validate().is_ok(), "elasticity 2d gmres spec should validate");
}

#[test]
fn gmres_poisson_spec_validates() {
    let mut spec = minimal_spec();
    spec.solver.linear = "gmres".to_string();
    assert!(spec.validate().is_ok());
}

#[test]
fn elasticity_plan_capabilities() {
    let spec = elasticity_spec(2, "gmres");
    let plan = CompiledPlan::from_spec(&spec);
    assert_eq!(
        plan.required.to_vec(),
        vec![Capability::SpaceH1Vector, Capability::BcDirichlet, Capability::PrecondJacobi]
    );
    let spec = elasticity_spec(3, "cg");
    let plan = CompiledPlan::from_spec(&spec);
    assert_eq!(
        plan.required.to_vec(),
        vec![Capability::SpaceH1Vector, Capability::BcDirichlet, Capability::SolverCG, Capability::PrecondJacobi]
    );
}
