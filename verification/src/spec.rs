//! Typed case specification schema and compiled plan.
//!
//! A [`CaseSpec`] holds what the case file says about the problem, mesh,
//! fields, equation, boundary conditions and solver choices. After
//! validation it can be compiled into a [`CompiledPlan`] that lists the
//! concrete [`Capability`] values the simulation requires.
//!
//! Numeric coefficients of the case file (coupling parameters, boundary
//! values) play no part in validation or compilation and are not held here.

use vstd::prelude::*;
use crate::capability::{Capability, CapabilitySet};
use crate::error::SpinozaError;
use crate::text::{decimal, push_decimal, push_str, str_eq};

verus! {

/// Top level case specification.
#[derive(Debug, Clone)]
pub struct CaseSpec {
    pub problem: ProblemSpec,
    pub mesh: MeshSpec,
    pub fields: Vec<FieldSpec>,
    pub equation: EquationSpec,
    pub bcs: Vec<BcSpec>,
    pub solver: SolverSpec,
}

/// Metadata about the problem.
#[derive(Debug, Clone)]
pub struct ProblemSpec {
    pub name: String,
}

/// Mesh description.
#[derive(Debug, Clone, Copy)]
pub struct MeshSpec {
    pub dimension: u8,
}

/// A field (unknown) to be solved for.
#[derive(Debug, Clone)]
pub struct FieldSpec {
    pub name: String,
    pub kind: FieldKind,
    pub space: Space,
    pub complex: bool,
}

/// Whether the field is scalar or vector valued.
#[derive(Debug, PartialEq, Eq, Structural, Clone, Copy)]
pub enum FieldKind {
    Scalar,
    Vector,
}

/// Finite element function space family.
#[derive(Debug, PartialEq, Eq, Structural, Clone, Copy)]
pub enum Space {
    H1,
}

/// The governing equation.
#[derive(Debug, Clone)]
pub struct EquationSpec {
    pub eq_type: String,
}

/// A single boundary condition entry.
#[derive(Debug, Clone)]
pub struct BcSpec {
    pub bc_type: String,
    pub field: String,
}

/// Solver configuration.
#[derive(Debug, Clone)]
pub struct SolverSpec {
    pub linear: String,
    pub precond: String,
}

// ---------------------------------------------------------------------------
// Validation rules
// ---------------------------------------------------------------------------

/// Equation types a case may name.
pub open spec fn allowed_equation(t: Seq<char>) -> bool {
    t == "poisson"@ || t == "coupled_elliptic_2x2"@ || t == "elasticity"@
}

/// Linear solvers a case may name.
pub open spec fn allowed_linear(t: Seq<char>) -> bool {
    t == "cg"@ || t == "block_pcg"@ || t == "gmres"@
}

/// Preconditioners a case may name.
pub open spec fn allowed_precond(t: Seq<char>) -> bool {
    t == "jacobi"@ || t == "block_jacobi"@ || t == "mg"@
}

/// The message for the first boundary condition, from position `i` on,
/// whose type is not "dirichlet".
pub open spec fn bc_type_error(bcs: Seq<BcSpec>, i: int) -> Option<Seq<char>>
    decreases bcs.len() - i,
{
    if i < 0 || i >= bcs.len() {
        None
    } else if bcs[i].bc_type@ != "dirichlet"@ {
        Some("bc type '"@ + bcs[i].bc_type@ + "' is not supported (allowed: dirichlet)"@)
    } else {
        bc_type_error(bcs, i + 1)
    }
}

/// Whether some field has the given name.
pub open spec fn has_field(fields: Seq<FieldSpec>, name: Seq<char>) -> bool {
    exists|k: int| 0 <= k < fields.len() && #[trigger] fields[k].name@ == name
}

/// The message for the first boundary condition, from position `i` on,
/// that names an undeclared field.
pub open spec fn bc_field_error(bcs: Seq<BcSpec>, fields: Seq<FieldSpec>, i: int) -> Option<Seq<char>>
    decreases bcs.len() - i,
{
    if i < 0 || i >= bcs.len() {
        None
    } else if !has_field(fields, bcs[i].field@) {
        Some("bc references unknown field '"@ + bcs[i].field@ + "'"@)
    } else {
        bc_field_error(bcs, fields, i + 1)
    }
}

/// The first problem found in a case spec, checked in this order:
/// dimension, equation type, boundary condition types, linear solver,
/// preconditioner, presence of fields, boundary condition field names.
/// `None` when the spec is well formed.
pub open spec fn validation_error(spec: CaseSpec) -> Option<Seq<char>> {
    if spec.mesh.dimension != 2 && spec.mesh.dimension != 3 {
        Some("mesh.dimension must be 2 or 3, got "@ + decimal(spec.mesh.dimension as nat))
    } else if !allowed_equation(spec.equation.eq_type@) {
        Some("equation.type '"@ + spec.equation.eq_type@ + "' is not supported (allowed: poisson, coupled_elliptic_2x2, elasticity)"@)
    } else if bc_type_error(spec.bcs@, 0) is Some {
        bc_type_error(spec.bcs@, 0)
    } else if !allowed_linear(spec.solver.linear@) {
        Some("solver.linear '"@ + spec.solver.linear@ + "' is not supported (allowed: cg, block_pcg, gmres)"@)
    } else if !allowed_precond(spec.solver.precond@) {
        Some("solver.precond '"@ + spec.solver.precond@ + "' is not supported (allowed: jacobi, block_jacobi, mg)"@)
    } else if spec.fields@.len() == 0 {
        Some("at least one field is required"@)
    } else {
        bc_field_error(spec.bcs@, spec.fields@, 0)
    }
}

/// The result `validate` gives for a spec.
pub open spec fn validation_result_matches(spec: CaseSpec, r: Result<(), SpinozaError>) -> bool {
    match validation_error(spec) {
        None => r is Ok,
        Some(m) => r matches Err(SpinozaError::ValidationError(msg)) && msg@ == m,
    }
}

fn first_bc_type_error(bcs: &Vec<BcSpec>) -> (r: Option<String>)
    ensures
        match bc_type_error(bcs@, 0) {
            None => r is None,
            Some(m) => r matches Some(s) && s@ == m,
        },
{
    let n = bcs.len();
    let mut i: usize = 0;
    while i < n
        invariant
            n == bcs@.len(),
            i <= n,
            bc_type_error(bcs@, 0) == bc_type_error(bcs@, i as int),
        decreases n - i,
    {
        if !str_eq(bcs[i].bc_type.as_str(), "dirichlet") {
            let mut m = String::new();
            push_str(&mut m, "bc type '");
            push_str(&mut m, bcs[i].bc_type.as_str());
            push_str(&mut m, "' is not supported (allowed: dirichlet)");
            return Some(m);
        }
        i = i + 1;
    }
    None
}

fn field_declared(fields: &Vec<FieldSpec>, name: &str) -> (b: bool)
    ensures
        b == has_field(fields@, name@),
{
    let n = fields.len();
    let mut k: usize = 0;
    while k < n
        invariant
            n == fields@.len(),
            k <= n,
            forall|j: int| 0 <= j < k ==> #[trigger] fields@[j].name@ != name@,
        decreases n - k,
    {
        if str_eq(fields[k].name.as_str(), name) {
            return true;
        }
        k = k + 1;
    }
    false
}

fn first_bc_field_error(bcs: &Vec<BcSpec>, fields: &Vec<FieldSpec>) -> (r: Option<String>)
    ensures
        match bc_field_error(bcs@, fields@, 0) {
            None => r is None,
            Some(m) => r matches Some(s) && s@ == m,
        },
{
    let n = bcs.len();
    let mut i: usize = 0;
    while i < n
        invariant
            n == bcs@.len(),
            i <= n,
            bc_field_error(bcs@, fields@, 0) == bc_field_error(bcs@, fields@, i as int),
        decreases n - i,
    {
        if !field_declared(fields, bcs[i].field.as_str()) {
            let mut m = String::new();
            push_str(&mut m, "bc references unknown field '");
            push_str(&mut m, bcs[i].field.as_str());
            push_str(&mut m, "'");
            return Some(m);
        }
        i = i + 1;
    }
    None
}

impl CaseSpec {
    /// Validate schema constraints beyond what parsing checks.
    ///
    /// Returns `Ok(())` when the spec is well formed, or a
    /// [`SpinozaError::ValidationError`] describing the first problem found.
    pub fn validate(&self) -> (r: Result<(), SpinozaError>)
        ensures
            validation_result_matches(*self, r),
            r is Ok <==> validation_error(*self) is None,
    {
        let dim = self.mesh.dimension;
        if dim != 2 && dim != 3 {
            let mut m = String::new();
            push_str(&mut m, "mesh.dimension must be 2 or 3, got ");
            push_decimal(&mut m, dim as usize);
            return Err(SpinozaError::ValidationError(m));
        }
        let eq = self.equation.eq_type.as_str();
        if !(str_eq(eq, "poisson") || str_eq(eq, "coupled_elliptic_2x2") || str_eq(eq, "elasticity")) {
            let mut m = String::new();
            push_str(&mut m, "equation.type '");
            push_str(&mut m, eq);
            push_str(&mut m, "' is not supported (allowed: poisson, coupled_elliptic_2x2, elasticity)");
            return Err(SpinozaError::ValidationError(m));
        }
        match first_bc_type_error(&self.bcs) {
            Some(m) => {
                return Err(SpinozaError::ValidationError(m));
            },
            None => {},
        }
        let lin = self.solver.linear.as_str();
        if !(str_eq(lin, "cg") || str_eq(lin, "block_pcg") || str_eq(lin, "gmres")) {
            let mut m = String::new();
            push_str(&mut m, "solver.linear '");
            push_str(&mut m, lin);
            push_str(&mut m, "' is not supported (allowed: cg, block_pcg, gmres)");
            return Err(SpinozaError::ValidationError(m));
        }
        let pc = self.solver.precond.as_str();
        if !(str_eq(pc, "jacobi") || str_eq(pc, "block_jacobi") || str_eq(pc, "mg")) {
            let mut m = String::new();
            push_str(&mut m, "solver.precond '");
            push_str(&mut m, pc);
            push_str(&mut m, "' is not supported (allowed: jacobi, block_jacobi, mg)");
            return Err(SpinozaError::ValidationError(m));
        }
        if self.fields.len() == 0 {
            return Err(SpinozaError::ValidationError(String::from_str("at least one field is required")));
        }
        match first_bc_field_error(&self.bcs, &self.fields) {
            Some(m) => Err(SpinozaError::ValidationError(m)),
            None => Ok(()),
        }
    }
}

// ---------------------------------------------------------------------------
// CompiledPlan
// ---------------------------------------------------------------------------

/// Whether some field has the given kind.
pub open spec fn has_field_kind(fields: Seq<FieldSpec>, kind: FieldKind) -> bool {
    exists|k: int| 0 <= k < fields.len() && #[trigger] fields[k].kind == kind
}

/// Whether some boundary condition is a Dirichlet condition.
pub open spec fn has_dirichlet_bc(bcs: Seq<BcSpec>) -> bool {
    exists|k: int| 0 <= k < bcs.len() && #[trigger] bcs[k].bc_type@ == "dirichlet"@
}

/// Whether a case requires a capability: spaces come from the field kinds,
/// operators from the equation type, boundary conditions from their types,
/// and solver and preconditioner from the solver settings.
pub open spec fn requires_capability(spec: CaseSpec, c: Capability) -> bool {
    let eq = spec.equation.eq_type@;
    match c {
        Capability::SpaceH1Scalar => has_field_kind(spec.fields@, FieldKind::Scalar),
        Capability::SpaceH1Vector => has_field_kind(spec.fields@, FieldKind::Vector),
        Capability::OperatorLaplacian => eq == "poisson"@ || eq == "coupled_elliptic_2x2"@,
        Capability::EquationCoupledElliptic2x2 => eq == "coupled_elliptic_2x2"@,
        Capability::BlockOperator2x2 => eq == "coupled_elliptic_2x2"@,
        Capability::BcDirichlet => has_dirichlet_bc(spec.bcs@),
        Capability::SolverCG => spec.solver.linear@ == "cg"@,
        Capability::SolverBlockPCG => spec.solver.linear@ == "block_pcg"@,
        Capability::PrecondJacobi => spec.solver.precond@ == "jacobi"@,
        Capability::PrecondBlockJacobi => spec.solver.precond@ == "block_jacobi"@,
        Capability::PrecondMG => spec.solver.precond@ == "mg"@,
        Capability::OperatorElasticity => false,
        Capability::SolverGMRES => false,
    }
}

/// The result of compiling a validated [`CaseSpec`] into a set of required
/// capabilities.
#[derive(Debug, Clone)]
pub struct CompiledPlan {
    /// Human readable problem name taken from the spec.
    pub problem_name: String,
    /// The set of capabilities the simulation case requires.
    pub required: CapabilitySet,
}

impl CompiledPlan {
    /// Compile a `CaseSpec` into a plan.
    pub fn from_spec(spec: &CaseSpec) -> (plan: CompiledPlan)
        ensures
            plan.problem_name@ == spec.problem.name@,
            forall|c: Capability| #[trigger] plan.required@.contains(c) <==> requires_capability(*spec, c),
    {
        let mut required = CapabilitySet::new();

        // Spaces from the fields.
        let nf = spec.fields.len();
        let mut i: usize = 0;
        while i < nf
            invariant
                nf == spec.fields@.len(),
                i <= nf,
                forall|c: Capability| #[trigger] required@.contains(c) <==> (
                    (c == Capability::SpaceH1Scalar && exists|k: int| 0 <= k < i && #[trigger] spec.fields@[k].kind == FieldKind::Scalar)
                    || (c == Capability::SpaceH1Vector && exists|k: int| 0 <= k < i && #[trigger] spec.fields@[k].kind == FieldKind::Vector)),
            decreases nf - i,
        {
            match spec.fields[i].kind {
                FieldKind::Scalar => {
                    required.insert(Capability::SpaceH1Scalar);
                },
                FieldKind::Vector => {
                    required.insert(Capability::SpaceH1Vector);
                },
            }
            proof {
                assert forall|c: Capability| #[trigger] required@.contains(c) <==> (
                    (c == Capability::SpaceH1Scalar && exists|k: int| 0 <= k < i + 1 && #[trigger] spec.fields@[k].kind == FieldKind::Scalar)
                    || (c == Capability::SpaceH1Vector && exists|k: int| 0 <= k < i + 1 && #[trigger] spec.fields@[k].kind == FieldKind::Vector)) by {
                    if c == Capability::SpaceH1Scalar && spec.fields@[i as int].kind == FieldKind::Scalar {
                        assert(spec.fields@[i as int].kind == FieldKind::Scalar);
                    }
                    if c == Capability::SpaceH1Vector && spec.fields@[i as int].kind == FieldKind::Vector {
                        assert(spec.fields@[i as int].kind == FieldKind::Vector);
                    }
                }
            }
            i = i + 1;
        }
        let ghost after_fields = required@;

        // Operators from the equation type.
        let eq = spec.equation.eq_type.as_str();
        let is_poisson = str_eq(eq, "poisson");
        let is_coupled = str_eq(eq, "coupled_elliptic_2x2");
        if is_poisson {
            required.insert(Capability::OperatorLaplacian);
        }
        if is_coupled {
            required.insert(Capability::OperatorLaplacian);
            required.insert(Capability::EquationCoupledElliptic2x2);
            required.insert(Capability::BlockOperator2x2);
        }

        // Boundary conditions.
        let nb = spec.bcs.len();
        let mut found_dirichlet = false;
        let mut j: usize = 0;
        while j < nb
            invariant
                nb == spec.bcs@.len(),
                j <= nb,
                found_dirichlet == exists|k: int| 0 <= k < j && #[trigger] spec.bcs@[k].bc_type@ == "dirichlet"@,
            decreases nb - j,
        {
            if str_eq(spec.bcs[j].bc_type.as_str(), "dirichlet") {
                found_dirichlet = true;
            }
            j = j + 1;
        }
        if found_dirichlet {
            required.insert(Capability::BcDirichlet);
        }

        // Solver and preconditioner.
        let lin = spec.solver.linear.as_str();
        let pc = spec.solver.precond.as_str();
        if str_eq(lin, "cg") {
            required.insert(Capability::SolverCG);
        }
        if str_eq(lin, "block_pcg") {
            required.insert(Capability::SolverBlockPCG);
        }
        if str_eq(pc, "jacobi") {
            required.insert(Capability::PrecondJacobi);
        }
        if str_eq(pc, "block_jacobi") {
            required.insert(Capability::PrecondBlockJacobi);
        }
        if str_eq(pc, "mg") {
            required.insert(Capability::PrecondMG);
        }
        proof {
            assert forall|c: Capability| #[trigger] required@.contains(c) <==> requires_capability(*spec, c) by {
                match c {
                    Capability::SpaceH1Scalar => {
                        assert(after_fields.contains(c) == has_field_kind(spec.fields@, FieldKind::Scalar));
                    },
                    Capability::SpaceH1Vector => {
                        assert(after_fields.contains(c) == has_field_kind(spec.fields@, FieldKind::Vector));
                    },
                    _ => {
                        assert(!after_fields.contains(c));
                    },
                }
            }
        }
        CompiledPlan { problem_name: spec.problem.name.clone(), required }
    }
}

/// A well formed case requires a preconditioner and a function space; it
/// requires the Laplacian operator exactly when its equation is not
/// elasticity, and a solver capability exactly when its linear solver is
/// not GMRES. The elasticity operator and the GMRES solver are never
/// derived from a case.
pub proof fn lemma_validated_plan_shape(spec: CaseSpec)
    requires
        validation_error(spec) is None,
    ensures
        requires_capability(spec, Capability::OperatorLaplacian) <==> spec.equation.eq_type@ != "elasticity"@,
        (requires_capability(spec, Capability::SolverCG) || requires_capability(spec, Capability::SolverBlockPCG))
            <==> spec.solver.linear@ != "gmres"@,
        requires_capability(spec, Capability::PrecondJacobi) || requires_capability(spec, Capability::PrecondBlockJacobi)
            || requires_capability(spec, Capability::PrecondMG),
        requires_capability(spec, Capability::SpaceH1Scalar) || requires_capability(spec, Capability::SpaceH1Vector),
        !requires_capability(spec, Capability::OperatorElasticity),
        !requires_capability(spec, Capability::SolverGMRES),
{
    reveal_strlit("poisson");
    reveal_strlit("coupled_elliptic_2x2");
    reveal_strlit("elasticity");
    reveal_strlit("cg");
    reveal_strlit("block_pcg");
    reveal_strlit("gmres");
    assert("poisson"@[0] != "elasticity"@[0]);
    assert("coupled_elliptic_2x2"@[0] != "elasticity"@[0]);
    assert("cg"@[0] != "gmres"@[0]);
    assert("block_pcg"@[0] != "gmres"@[0]);
    let k = 0int;
    match spec.fields@[k].kind {
        FieldKind::Scalar => {
            assert(has_field_kind(spec.fields@, FieldKind::Scalar));
        },
        FieldKind::Vector => {
            assert(has_field_kind(spec.fields@, FieldKind::Vector));
        },
    }
}

/// Every boundary condition of a well formed case is a Dirichlet condition
/// on a declared field.
pub proof fn lemma_validated_bcs(spec: CaseSpec, i: int)
    requires
        validation_error(spec) is None,
        0 <= i < spec.bcs@.len(),
    ensures
        spec.bcs@[i].bc_type@ == "dirichlet"@,
        has_field(spec.fields@, spec.bcs@[i].field@),
{
    lemma_bc_type_error_none(spec.bcs@, 0, i);
    lemma_bc_field_error_none(spec.bcs@, spec.fields@, 0, i);
}

proof fn lemma_bc_type_error_none(bcs: Seq<BcSpec>, from: int, i: int)
    requires
        0 <= from <= i < bcs.len(),
        bc_type_error(bcs, from) is None,
    ensures
        bcs[i].bc_type@ == "dirichlet"@,
    decreases i - from,
{
    if from < i {
        lemma_bc_type_error_none(bcs, from + 1, i);
    }
}

proof fn lemma_bc_field_error_none(bcs: Seq<BcSpec>, fields: Seq<FieldSpec>, from: int, i: int)
    requires
        0 <= from <= i < bcs.len(),
        bc_field_error(bcs, fields, from) is None,
    ensures
        has_field(fields, bcs[i].field@),
    decreases i - from,
{
    if from < i {
        lemma_bc_field_error_none(bcs, fields, from + 1, i);
    }
}

/// A case is well formed exactly when its dimension is 2 or 3, its
/// equation is Poisson, the coupled 2x2 elliptic system or elasticity,
/// every boundary condition is a Dirichlet condition on a declared field,
/// its linear solver is CG, block PCG or GMRES, its preconditioner is
/// Jacobi, block Jacobi or multigrid, and it declares at least one field.
pub proof fn lemma_validation_accepts_exactly(spec: CaseSpec)
    ensures
        validation_error(spec) is None <==> {
            &&& (spec.mesh.dimension == 2 || spec.mesh.dimension == 3)
            &&& (spec.equation.eq_type@ == "poisson"@ || spec.equation.eq_type@ == "coupled_elliptic_2x2"@
                || spec.equation.eq_type@ == "elasticity"@)
            &&& (forall|i: int| 0 <= i < spec.bcs@.len() ==> (#[trigger] spec.bcs@[i]).bc_type@ == "dirichlet"@)
            &&& (spec.solver.linear@ == "cg"@ || spec.solver.linear@ == "block_pcg"@ || spec.solver.linear@ == "gmres"@)
            &&& (spec.solver.precond@ == "jacobi"@ || spec.solver.precond@ == "block_jacobi"@
                || spec.solver.precond@ == "mg"@)
            &&& spec.fields@.len() > 0
            &&& (forall|i: int| 0 <= i < spec.bcs@.len() ==> exists|k: int|
                0 <= k < spec.fields@.len() && spec.fields@[k].name@ == (#[trigger] spec.bcs@[i]).field@)
        },
{
    let bcs = spec.bcs@;
    let fields = spec.fields@;
    if validation_error(spec) is None {
        assert forall|i: int| 0 <= i < bcs.len() implies (#[trigger] bcs[i]).bc_type@ == "dirichlet"@ by {
            lemma_validated_bcs(spec, i);
        }
        assert forall|i: int| 0 <= i < bcs.len() implies exists|k: int|
            0 <= k < fields.len() && fields[k].name@ == (#[trigger] bcs[i]).field@ by {
            lemma_validated_bcs(spec, i);
        }
    }
    if (forall|i: int| 0 <= i < bcs.len() ==> (#[trigger] bcs[i]).bc_type@ == "dirichlet"@) {
        lemma_bc_type_error_absent(bcs, 0);
    }
    if (forall|i: int| 0 <= i < bcs.len() ==> exists|k: int|
        0 <= k < fields.len() && fields[k].name@ == (#[trigger] bcs[i]).field@) {
        assert forall|i: int| 0 <= i < bcs.len() implies has_field(fields, (#[trigger] bcs[i]).field@) by {
            let k = choose|k: int| 0 <= k < fields.len() && fields[k].name@ == bcs[i].field@;
            assert(fields[k].name@ == bcs[i].field@);
        }
        lemma_bc_field_error_absent(bcs, fields, 0);
    }
}

proof fn lemma_bc_type_error_absent(bcs: Seq<BcSpec>, from: int)
    requires
        0 <= from,
        forall|i: int| 0 <= i < bcs.len() ==> (#[trigger] bcs[i]).bc_type@ == "dirichlet"@,
    ensures
        bc_type_error(bcs, from) is None,
    decreases bcs.len() - from,
{
    if from < bcs.len() {
        assert(bcs[from].bc_type@ == "dirichlet"@);
        lemma_bc_type_error_absent(bcs, from + 1);
    }
}

proof fn lemma_bc_field_error_absent(bcs: Seq<BcSpec>, fields: Seq<FieldSpec>, from: int)
    requires
        0 <= from,
        forall|i: int| 0 <= i < bcs.len() ==> has_field(fields, (#[trigger] bcs[i]).field@),
    ensures
        bc_field_error(bcs, fields, from) is None,
    decreases bcs.len() - from,
{
    if from < bcs.len() {
        assert(has_field(fields, bcs[from].field@));
        lemma_bc_field_error_absent(bcs, fields, from + 1);
    }
}

/// The plan of a well formed case asks for the Dirichlet capability exactly
/// when the case has a boundary condition, and for exactly one
/// preconditioner capability: the one its preconditioner setting names.
pub proof fn lemma_plan_follows_case(spec: CaseSpec)
    requires
        validation_error(spec) is None,
    ensures
        requires_capability(spec, Capability::BcDirichlet) <==> spec.bcs@.len() > 0,
        requires_capability(spec, Capability::PrecondMG) <==> spec.solver.precond@ == "mg"@,
        requires_capability(spec, Capability::PrecondJacobi) <==> spec.solver.precond@ == "jacobi"@,
        requires_capability(spec, Capability::PrecondBlockJacobi) <==> spec.solver.precond@ == "block_jacobi"@,
        (requires_capability(spec, Capability::PrecondMG) as int) + (requires_capability(spec, Capability::PrecondJacobi) as int)
            + (requires_capability(spec, Capability::PrecondBlockJacobi) as int) == 1,
{
    reveal_strlit("mg");
    reveal_strlit("jacobi");
    reveal_strlit("block_jacobi");
    assert("mg"@[0] != "jacobi"@[0]);
    assert("mg"@[0] != "block_jacobi"@[0]);
    assert("jacobi"@[0] != "block_jacobi"@[0]);
    if spec.bcs@.len() > 0 {
        lemma_validated_bcs(spec, 0);
        assert(spec.bcs@[0].bc_type@ == "dirichlet"@);
    }
}

} // verus!
