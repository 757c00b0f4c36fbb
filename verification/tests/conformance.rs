use spinoza::conformance::{assert_pack_conforms, verify_pack, verify_pack_among};
use spinoza::packs::{iter_packs, PoissonPack};

#[test]
fn poisson_pack_conforms() {
    let _ = PoissonPack;
    assert_pack_conforms("poisson");
}

#[test]
fn block2x2_pack_conforms() {
    assert_pack_conforms("block2x2");
}

#[test]
fn elasticity_pack_conforms() {
    assert_pack_conforms("elasticity");
}

#[test]
fn linear_solvers_pack_conforms() {
    assert_pack_conforms("linear_solvers");
}

#[test]
fn all_packs_conform() {
    assert_pack_conforms("poisson");
    assert_pack_conforms("elasticity");
    assert_pack_conforms("block2x2");
    assert_pack_conforms("linear_solvers");
}

#[test]
fn poisson_report_lists_every_check() {
    let report = verify_pack("poisson");
    assert!(report.all_passed());
    assert!(report.failures().is_empty());
    let names: Vec<&str> = report.checks.iter().map(|c| c.name.as_str()).collect();
    assert_eq!(
        names,
        vec![
            "discovery",
            "capabilities_deterministic",
            "capabilities_nonempty",
            "version_nonempty",
            "builders_registered",
            "no_duplicate_keys",
            "operator_factories",
            "preconditioner_factories",
            "solver_factories",
            "no_duplicate_operator_factory_keys",
            "no_duplicate_solver_factory_keys",
            "no_single_field_solver_in_physics_pack",
        ]
    );
    assert_eq!(report.checks[0].detail, "pack 'poisson' found via inventory");
    assert_eq!(report.checks[1].detail, "5 capabilities returned consistently");
    assert_eq!(report.checks[2].detail, "pack declares 5 capabilities");
    assert_eq!(report.checks[3].detail, "version = '0.1.0'");
    assert_eq!(report.checks[4].detail, "1 builder(s) registered: PoissonBuilder");
    assert_eq!(
        report.checks[7].detail,
        "2 preconditioner factory(ies) registered: JacobiPreconditioner, MultigridPreconditioner"
    );
    assert_eq!(report.checks[8].detail, "0 solver factory(ies) registered");
    let text = report.render();
    assert!(text.starts_with("Conformance report for pack 'poisson':\n  [PASS] discovery: pack 'poisson' found via inventory\n"));
    assert!(text.ends_with("All checks passed.\n"));
}

#[test]
fn linear_solvers_pack_has_no_physics_check() {
    let report = verify_pack("linear_solvers");
    assert!(report.all_passed());
    assert_eq!(report.checks.len(), 11);
    assert_eq!(report.checks[4].detail, "no builders registered by this pack");
}

#[test]
fn unknown_pack_fails_discovery() {
    let report = verify_pack("heat");
    assert!(!report.all_passed());
    assert_eq!(report.checks.len(), 1);
    assert_eq!(
        report.checks[0].detail,
        "pack 'heat' NOT found; available: [\"block2x2\", \"elasticity\", \"linear_solvers\", \"poisson\"]"
    );
    assert_eq!(report.failures().len(), 1);
    assert_eq!(
        report.render(),
        "Conformance report for pack 'heat':\n  [FAIL] discovery: pack 'heat' NOT found; available: [\"block2x2\", \"elasticity\", \"linear_solvers\", \"poisson\"]\n1 check(s) failed.\n"
    );
}

#[test]
fn duplicate_packs_report_duplicate_keys() {
    let mut packs = iter_packs();
    let extra = PoissonPack.entry();
    packs.push(extra);
    let report = verify_pack_among(&packs, "poisson");
    assert!(!report.all_passed());
    let failed: Vec<&str> = report.failures().iter().map(|c| c.name.as_str()).collect();
    assert_eq!(failed, vec!["no_duplicate_keys", "no_duplicate_operator_factory_keys"]);
    assert_eq!(
        report.checks[5].detail,
        "duplicate builder keys: [\"poisson|[2, 3]|[\\\"assembled\\\", \\\"matrixfree\\\"]\"]"
    );
}
