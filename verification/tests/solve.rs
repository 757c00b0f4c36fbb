use spinoza::solve::{block_smoother_for, coupled_boundary_conditions, find_bc_for_field, BlockSmoother};
use spinoza::components::SolverFactory;
use spinoza::error::SpinozaError;
use spinoza::keys::SolverKey;
use spinoza::registry::MethodRegistry;
use spinoza::solve::{
    grid_resolution, infer_block_structure, resolve_operator, resolve_preconditioner, select_builder,
    select_solver, selection_label, single_field_operator_key, single_field_preconditioner_key, solver_key_for,
    SolveBackend, SolvePreconditioner,
};
use spinoza::spec::{BcSpec, CaseSpec, EquationSpec, FieldKind, FieldSpec, MeshSpec, ProblemSpec, SolverSpec, Space};

fn case(eq: &str, dim: u8, linear: &str) -> CaseSpec {
    CaseSpec {
        problem: ProblemSpec { name: "case".to_string() },
        mesh: MeshSpec { dimension: dim },
        fields: vec![FieldSpec { name: "u".to_string(), kind: FieldKind::Scalar, space: Space::H1, complex: false }],
        equation: EquationSpec { eq_type: eq.to_string() },
        bcs: vec![BcSpec { bc_type: "dirichlet".to_string(), field: "u".to_string() }],
        solver: SolverSpec { linear: linear.to_string(), precond: "jacobi".to_string() },
    }
}

fn message(e: SpinozaError) -> String {
    match e {
        SpinozaError::ValidationError(m) => m,
        other => panic!("unexpected error: {}", other.message()),
    }
}

#[test]
fn backend_and_preconditioner_names() {
    assert_eq!(SolveBackend::Assembled.as_str(), "assembled");
    assert_eq!(SolveBackend::MatrixFree.as_str(), "matrixfree");
    assert_eq!(SolvePreconditioner::Jacobi.as_str(), "jacobi");
    assert_eq!(SolvePreconditioner::Mg.as_str(), "mg");
    assert_eq!(SolvePreconditioner::BlockJacobi.as_str(), "block_jacobi");
}

#[test]
fn grid_resolution_by_dimension() {
    assert_eq!(grid_resolution(2), (8, 8, 1, None));
    assert_eq!(grid_resolution(3), (8, 8, 8, Some(8)));
}

#[test]
fn solver_key_follows_the_case() {
    assert_eq!(infer_block_structure("coupled_elliptic_2x2"), "block2x2");
    assert_eq!(infer_block_structure("poisson"), "single_field");
    let k = solver_key_for(&case("poisson", 2, "cg"));
    assert_eq!(k, SolverKey { solver_type: "cg".into(), spd: true, complex: false, block_structure: "single_field".into() });
    let k = solver_key_for(&case("elasticity", 2, "gmres"));
    assert!(!k.spd);
    let k = solver_key_for(&case("coupled_elliptic_2x2", 3, "block_pcg"));
    assert_eq!(k.block_structure, "block2x2");
    assert!(k.spd);
}

#[test]
fn builder_selection_for_a_solve() {
    let registry = MethodRegistry::from_packs();
    let (index, sel) = select_builder(&registry, &case("poisson", 2, "cg"), SolveBackend::Assembled).unwrap();
    assert_eq!(sel.pack_name, "poisson");
    assert_eq!(sel.builder_name, "PoissonBuilder");
    assert_eq!(registry.builder_at(index).name, "PoissonBuilder");
    let err = select_builder(&registry, &case("coupled_elliptic_2x2", 2, "block_pcg"), SolveBackend::Assembled)
        .unwrap_err();
    assert_eq!(
        message(err),
        "no builder found for equation='coupled_elliptic_2x2', dim=2, backend='assembled'"
    );
}

#[test]
fn solver_selection_for_a_solve() {
    let mut registry = MethodRegistry::from_packs();
    let key = solver_key_for(&case("poisson", 2, "cg"));
    let (_, sel) = select_solver(&registry, &key).unwrap();
    assert_eq!(selection_label(&sel), "linear_solvers::CgSolver");

    let missing = SolverKey { solver_type: "bicgstab".into(), spd: true, complex: false, block_structure: "single_field".into() };
    assert_eq!(
        message(select_solver(&registry, &missing).unwrap_err()),
        "COMPONENT_NOT_FOUND: no solver factory registered for key (solver_type='bicgstab', spd=true, complex=false, block='single_field'). Ensure spinoza-pack-linear-solvers is linked."
    );

    registry.register_solver_factory(SolverFactory { name: "OtherCg".to_string(), keys: vec![key.clone()], provided: vec![], required: vec![] });
    assert!(message(select_solver(&registry, &key).unwrap_err()).starts_with("ambiguous solver_factory selection: 2 factories match"));
}

#[test]
fn single_field_components() {
    let registry = MethodRegistry::from_packs();
    let op = single_field_operator_key("elasticity", "H1Vector", 3, "matrixfree");
    assert_eq!(op.element_family, "hex");
    assert_eq!(op.order, 1);
    assert_eq!(op.block_structure, "single_field");
    assert!(resolve_operator(&registry, &op).is_ok());

    let op2 = single_field_operator_key("heat", "H1Scalar", 2, "assembled");
    assert_eq!(op2.element_family, "quad");
    assert_eq!(
        resolve_operator(&registry, &op2).unwrap_err(),
        "no operator factory for equation='heat', backend='assembled', dim=2"
    );

    let pc = single_field_preconditioner_key("poisson", "H1Scalar", 2, "matrixfree", "mg");
    assert!(resolve_preconditioner(&registry, &pc).unwrap().is_some());
    let pc2 = single_field_preconditioner_key("poisson", "H1Scalar", 2, "assembled", "mg");
    assert_eq!(resolve_preconditioner(&registry, &pc2).unwrap(), None);
}

#[test]
fn coupled_system_choices() {
    assert_eq!(block_smoother_for("block_jacobi").unwrap(), BlockSmoother::Multigrid);
    assert_eq!(block_smoother_for("mg").unwrap(), BlockSmoother::Multigrid);
    assert_eq!(block_smoother_for("jacobi").unwrap(), BlockSmoother::Jacobi);
    assert_eq!(block_smoother_for("ilu").unwrap_err(), "unknown preconditioner hint: ilu");

    let mut spec = case("coupled_elliptic_2x2", 2, "block_pcg");
    assert_eq!(
        coupled_boundary_conditions(&spec).unwrap_err(),
        "coupled_elliptic_2x2 requires exactly 2 fields, got 1"
    );
    spec.fields.push(FieldSpec { name: "v".to_string(), kind: FieldKind::Scalar, space: Space::H1, complex: false });
    spec.bcs.push(BcSpec { bc_type: "dirichlet".to_string(), field: "v".to_string() });
    spec.bcs.push(BcSpec { bc_type: "dirichlet".to_string(), field: "u".to_string() });
    assert_eq!(coupled_boundary_conditions(&spec).unwrap(), (Some(0), Some(1)));
    assert_eq!(find_bc_for_field(&spec, "w"), None);
}

#[test]
fn elasticity_gmres_case_selects_its_components() {
    let mut spec = case("elasticity", 2, "gmres");
    spec.fields[0].name = "displacement".to_string();
    spec.fields[0].kind = FieldKind::Vector;
    spec.bcs[0].field = "displacement".to_string();
    assert!(spec.validate().is_ok());
    let registry = MethodRegistry::from_packs();
    let (_, sel) = select_builder(&registry, &spec, SolveBackend::MatrixFree).unwrap();
    assert_eq!(sel.pack_name, "elasticity");
    assert_eq!(sel.builder_name, "ElasticityBuilder");
    let (_, solver) = select_solver(&registry, &solver_key_for(&spec)).unwrap();
    assert_eq!(selection_label(&solver), "linear_solvers::GmresSolver");
}
