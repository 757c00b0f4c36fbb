use spinoza::components::{ProblemBuilder, SolverFactory};
use spinoza::keys::{OperatorKey, PreconditionerKey, SolverKey};
use spinoza::list::{build_list_json, render_list_text};
use spinoza::registry::{BuilderLookup, ComponentLookup, MethodRegistry};

fn op_key(family: &str, space: &str) -> OperatorKey {
    OperatorKey {
        equation_family: family.into(),
        backend: "assembled".into(),
        dimension: 2,
        space_signature: space.into(),
        element_family: "quad".into(),
        order: 1,
        block_structure: "single_field".into(),
    }
}

fn solver_key(solver_type: &str, spd: bool, block: &str) -> SolverKey {
    SolverKey { solver_type: solver_type.into(), spd, complex: false, block_structure: block.into() }
}

#[test]
fn pack_discovery_finds_both_packs() {
    let registry = MethodRegistry::from_packs();
    let names = registry.pack_names();
    assert!(names.iter().any(|n| n == "poisson"), "poisson pack missing: {names:?}");
    assert!(names.iter().any(|n| n == "block2x2"), "block2x2 pack missing: {names:?}");
}

#[test]
fn no_key_collision_between_packs() {
    let registry = MethodRegistry::from_packs();

    match registry.find_operator(&op_key("elasticity", "H1Vector")) {
        ComponentLookup::Found { selection, .. } => {
            assert!(
                selection.component_name.contains("Elasticity"),
                "should find Elasticity operator, got: {}",
                selection.component_name
            );
        }
        other => panic!("expected Found for elasticity op, got {other:?}"),
    }

    match registry.find_operator(&op_key("poisson", "H1Scalar")) {
        ComponentLookup::Found { selection, .. } => {
            assert!(
                selection.component_name.contains("Poisson"),
                "should find Poisson operator, got: {}",
                selection.component_name
            );
        }
        other => panic!("expected Found for poisson op, got {other:?}"),
    }

    let elast_pc_key = PreconditionerKey {
        precond_type: "jacobi".into(),
        backend: "assembled".into(),
        dimension: 2,
        operator_family: "elasticity".into(),
        space_signature: "H1Vector".into(),
        element_family: "quad".into(),
        order: 1,
        block_structure: "single_field".into(),
    };
    match registry.find_preconditioner(&elast_pc_key) {
        ComponentLookup::Found { selection, .. } => {
            assert!(
                selection.component_name.contains("Elasticity"),
                "should find Elasticity precond, got: {}",
                selection.component_name
            );
        }
        other => panic!("expected Found for elasticity precond, got {other:?}"),
    }
}

#[test]
fn poisson_solve_selects_cg_from_linear_solvers() {
    let registry = MethodRegistry::from_packs();
    match registry.find_solver(&solver_key("cg", true, "single_field")) {
        ComponentLookup::Found { selection, .. } => {
            assert_eq!(
                selection.pack_name, "linear_solvers",
                "CG solver should come from linear_solvers pack, got: {}",
                selection.pack_name
            );
            assert_eq!(selection.component_name, "CgSolver");
        }
        ComponentLookup::NotFound => panic!("CG solver factory not found"),
        ComponentLookup::Ambiguous(err) => panic!("ambiguous CG solver: {}", err.message()),
    }
}

#[test]
fn elasticity_solve_selects_gmres_from_linear_solvers() {
    let registry = MethodRegistry::from_packs();
    match registry.find_solver(&solver_key("gmres", false, "single_field")) {
        ComponentLookup::Found { selection, .. } => {
            assert_eq!(
                selection.pack_name, "linear_solvers",
                "GMRES solver should come from linear_solvers pack, got: {}",
                selection.pack_name
            );
            assert_eq!(selection.component_name, "GmresSolver");
        }
        ComponentLookup::NotFound => panic!("GMRES solver factory not found"),
        ComponentLookup::Ambiguous(err) => panic!("ambiguous GMRES solver: {}", err.message()),
    }
}

#[test]
fn block_pcg_stays_in_block2x2_pack() {
    let registry = MethodRegistry::from_packs();
    match registry.find_solver(&solver_key("block_pcg", true, "block2x2")) {
        ComponentLookup::Found { selection, .. } => {
            assert_eq!(
                selection.pack_name, "block2x2",
                "block_pcg solver should still come from block2x2 pack, got: {}",
                selection.pack_name
            );
        }
        ComponentLookup::NotFound => panic!("block_pcg solver factory not found"),
        ComponentLookup::Ambiguous(err) => panic!("ambiguous block_pcg solver: {}", err.message()),
    }
}

#[test]
fn no_ambiguous_solver_selection() {
    let registry = MethodRegistry::from_packs();
    let keys = [
        solver_key("cg", true, "single_field"),
        solver_key("gmres", false, "single_field"),
        solver_key("block_pcg", true, "block2x2"),
    ];
    for key in &keys {
        if let ComponentLookup::Ambiguous(err) = registry.find_solver(key) {
            panic!("ambiguous selection for solver key {}: {}", key.describe(), err.message());
        }
    }
}

#[test]
fn physics_packs_have_no_single_field_solvers() {
    let registry = MethodRegistry::from_packs();
    let solver_infos = registry.solver_factory_info();
    for physics_pack in &["poisson", "elasticity"] {
        let pack_solvers: Vec<_> = solver_infos
            .iter()
            .filter(|info| info.pack == *physics_pack)
            .filter(|info| info.keys.contains("single_field"))
            .collect();
        assert!(
            pack_solvers.is_empty(),
            "physics pack '{}' should not register single_field solver factories, found: {:?}",
            physics_pack,
            pack_solvers.iter().map(|f| f.name.clone()).collect::<Vec<_>>()
        );
    }
}

#[test]
fn solver_not_found_for_nonexistent_type() {
    let registry = MethodRegistry::from_packs();
    match registry.find_solver(&solver_key("bicgstab", false, "single_field")) {
        ComponentLookup::NotFound => {}
        ComponentLookup::Found { selection, .. } => {
            panic!(
                "should not find a factory for 'bicgstab', got: {}::{}",
                selection.pack_name, selection.component_name
            );
        }
        ComponentLookup::Ambiguous(err) => panic!("unexpected ambiguity: {}", err.message()),
    }
}

#[test]
fn builder_lookup_finds_unique_and_reports_ambiguity() {
    let mut registry = MethodRegistry::from_packs();
    match registry.find_builder_checked("poisson", 3, "matrixfree") {
        BuilderLookup::Found { selection, .. } => {
            assert_eq!(selection.pack_name, "poisson");
            assert_eq!(selection.builder_name, "PoissonBuilder");
        }
        other => panic!("expected Found, got {other:?}"),
    }
    assert!(matches!(registry.find_builder_checked("poisson", 4, "assembled"), BuilderLookup::NotFound));
    assert!(registry.find_builder("coupled_elliptic_2x2", 2, "assembled").is_none());
    assert!(registry.find_builder("coupled_elliptic_2x2", 2, "matrixfree").is_some());

    registry.register_builder(ProblemBuilder {
        name: "OtherPoisson".to_string(),
        equation_type: "poisson".to_string(),
        dimensions: vec![2],
        backends: vec!["assembled".to_string()],
    });
    match registry.find_builder_checked("poisson", 2, "assembled") {
        BuilderLookup::Ambiguous(err) => {
            assert_eq!(err.candidates.len(), 2);
            assert_eq!(
                err.message(),
                "ambiguous builder selection: 2 builders match equation='poisson', dim=2, backend='assembled': poisson::PoissonBuilder, unknown::OtherPoisson"
            );
        }
        other => panic!("expected Ambiguous, got {other:?}"),
    }
    let first = registry.find_builder("poisson", 2, "assembled").unwrap();
    assert_eq!(registry.builder_at(first).name, "PoissonBuilder");
}

#[test]
fn ambiguous_solver_message_lists_candidates() {
    let mut registry = MethodRegistry::from_packs();
    registry.register_solver_factory(SolverFactory {
        name: "MyCg".to_string(),
        keys: vec![solver_key("cg", true, "single_field")],
        provided: vec![],
        required: vec![],
    });
    match registry.find_solver(&solver_key("cg", true, "single_field")) {
        ComponentLookup::Ambiguous(err) => assert_eq!(
            err.message(),
            "ambiguous solver_factory selection: 2 factories match solver_type='cg', spd=true, complex=false, block='single_field': linear_solvers::CgSolver, unknown::MyCg"
        ),
        other => panic!("expected Ambiguous, got {other:?}"),
    }
}

#[test]
fn key_texts() {
    let k = op_key("poisson", "H1Scalar");
    assert_eq!(
        k.describe(),
        "equation_family='poisson', backend='assembled', dimension=2, space='H1Scalar', element='quad', order=1, block='single_field'"
    );
    assert_eq!(k.summary(), "(poisson, assembled, 2d, H1Scalar, quad, o1, single_field)");
    let s = solver_key("gmres", false, "single_field");
    assert_eq!(s.summary(), "(gmres, spd=false, complex=false, single_field)");
    assert!(s.same_as(&solver_key("gmres", false, "single_field")));
    assert!(!s.same_as(&solver_key("gmres", true, "single_field")));
}

#[test]
fn registry_introspection() {
    let registry = MethodRegistry::from_packs();
    let packs = registry.pack_info();
    let names: Vec<&str> = packs.iter().map(|p| p.name.as_str()).collect();
    assert_eq!(names, vec!["block2x2", "elasticity", "linear_solvers", "poisson"]);
    assert_eq!(packs[3].capabilities, vec!["Space_H1Scalar", "Operator_Laplacian", "BC_Dirichlet", "Precond_Jacobi", "Precond_MG"]);
    let builders = registry.builder_info();
    let poisson = builders.iter().find(|b| b.name == "PoissonBuilder").unwrap();
    assert_eq!(poisson.pack, "poisson");
    assert_eq!(poisson.dimensions, "[2, 3]");
    assert_eq!(poisson.backends, "[\"assembled\", \"matrixfree\"]");
    let solvers = registry.solver_factory_info();
    let cg = solvers.iter().find(|f| f.name == "CgSolver").unwrap();
    assert_eq!(cg.factory_type, "solver_factory");
    assert_eq!(cg.keys, "(cg, spd=true, complex=false, single_field)");
}

#[test]
fn list_text_names_packs_and_components() {
    let registry = MethodRegistry::from_packs();
    let text = render_list_text(&registry);
    assert!(text.starts_with("Discovered packs:\n  block2x2 v0.1.0\n    - BlockOperator_2x2\n"));
    assert!(text.contains("\nRegistered builders:\n"));
    assert!(text.contains("  PoissonBuilder (pack=poisson) equation=poisson dims=[2, 3] backends=[\"assembled\", \"matrixfree\"]\n"));
    assert!(text.contains("\nRegistered solver factories:\n  BlockPcgSolver (pack=block2x2) keys=[(block_pcg, spd=true, complex=false, block2x2)]\n"));
    let empty = render_list_text(&MethodRegistry::new());
    assert!(empty.starts_with("Discovered packs:\n  block2x2 v0.1.0\n"));
    assert!(!empty.contains("Registered builders"));
    assert!(!empty.contains("Registered solver factories"));
    let json = build_list_json(&registry);
    assert_eq!(json.packs.len(), 4);
    assert_eq!(json.solver_factories.len(), 3);
}
