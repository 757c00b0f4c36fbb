//! Typed keys under which operator, preconditioner and solver factories are
//! registered and looked up, and their textual forms.

use vstd::prelude::*;
use crate::text::{decimal, push_decimal, push_str, str_eq};

verus! {

/// Legacy key describing what a factory provides or requires.
#[derive(Debug, Clone, PartialEq, Eq, PartialOrd, Ord, Hash)]
pub struct FactoryKey {
    pub equation_type: String,
    pub dimension: u8,
    pub backend: String,
}

/// Key for operator factory lookup.
#[derive(Debug, Clone, PartialEq, Eq, PartialOrd, Ord, Hash)]
pub struct OperatorKey {
    pub equation_family: String,
    pub backend: String,
    pub dimension: u8,
    /// Function space signature, e.g. "H1Scalar", "H1Vector".
    pub space_signature: String,
    /// Element family, e.g. "quad" (2D), "hex" (3D).
    pub element_family: String,
    /// Polynomial order, e.g. 1 for Q1.
    pub order: u8,
    /// Block structure, e.g. "single_field" or "block2x2".
    pub block_structure: String,
}

/// Key for preconditioner factory lookup.
#[derive(Debug, Clone, PartialEq, Eq, PartialOrd, Ord, Hash)]
pub struct PreconditionerKey {
    pub precond_type: String,
    pub backend: String,
    pub dimension: u8,
    /// The operator family this preconditioner is designed for.
    pub operator_family: String,
    /// Function space signature.
    pub space_signature: String,
    /// Element family.
    pub element_family: String,
    /// Polynomial order.
    pub order: u8,
    /// Block structure.
    pub block_structure: String,
}

/// Key for solver factory lookup.
#[derive(Debug, Clone, PartialEq, Eq, PartialOrd, Ord, Hash)]
pub struct SolverKey {
    pub solver_type: String,
    pub spd: bool,
    pub complex: bool,
    /// Block structure, e.g. "single_field" or "block2x2".
    pub block_structure: String,
}

/// The values an operator key holds.
pub type OperatorKeyView = (Seq<char>, Seq<char>, u8, Seq<char>, Seq<char>, u8, Seq<char>);

/// The values a preconditioner key holds.
pub type PreconditionerKeyView = (Seq<char>, Seq<char>, u8, Seq<char>, Seq<char>, Seq<char>, u8, Seq<char>);

/// The values a solver key holds.
pub type SolverKeyView = (Seq<char>, bool, bool, Seq<char>);

impl View for FactoryKey {
    type V = (Seq<char>, u8, Seq<char>);

    open spec fn view(&self) -> (Seq<char>, u8, Seq<char>) {
        (self.equation_type@, self.dimension, self.backend@)
    }
}

impl View for OperatorKey {
    type V = OperatorKeyView;

    open spec fn view(&self) -> OperatorKeyView {
        (
            self.equation_family@,
            self.backend@,
            self.dimension,
            self.space_signature@,
            self.element_family@,
            self.order,
            self.block_structure@,
        )
    }
}

impl View for PreconditionerKey {
    type V = PreconditionerKeyView;

    open spec fn view(&self) -> PreconditionerKeyView {
        (
            self.precond_type@,
            self.backend@,
            self.dimension,
            self.operator_family@,
            self.space_signature@,
            self.element_family@,
            self.order,
            self.block_structure@,
        )
    }
}

impl View for SolverKey {
    type V = SolverKeyView;

    open spec fn view(&self) -> SolverKeyView {
        (self.solver_type@, self.spd, self.complex, self.block_structure@)
    }
}

/// "true" or "false".
pub open spec fn bool_text(b: bool) -> Seq<char> {
    if b { "true"@ } else { "false"@ }
}

fn push_bool(out: &mut String, b: bool)
    ensures
        final(out)@ == old(out)@ + bool_text(b),
{
    if b {
        push_str(out, "true");
    } else {
        push_str(out, "false");
    }
}

// ---------------------------------------------------------------------------
// Descriptions (display forms)
// ---------------------------------------------------------------------------

/// How an operator key is described in messages.
pub open spec fn operator_key_description(k: OperatorKeyView) -> Seq<char> {
    "equation_family='"@ + k.0 + "', backend='"@ + k.1 + "', dimension="@ + decimal(k.2 as nat)
        + ", space='"@ + k.3 + "', element='"@ + k.4 + "', order="@ + decimal(k.5 as nat)
        + ", block='"@ + k.6 + "'"@
}

/// How a preconditioner key is described in messages.
pub open spec fn preconditioner_key_description(k: PreconditionerKeyView) -> Seq<char> {
    "precond_type='"@ + k.0 + "', backend='"@ + k.1 + "', dimension="@ + decimal(k.2 as nat)
        + ", op_family='"@ + k.3 + "', space='"@ + k.4 + "', element='"@ + k.5 + "', order="@
        + decimal(k.6 as nat) + ", block='"@ + k.7 + "'"@
}

/// How a solver key is described in messages.
pub open spec fn solver_key_description(k: SolverKeyView) -> Seq<char> {
    "solver_type='"@ + k.0 + "', spd="@ + bool_text(k.1) + ", complex="@ + bool_text(k.2)
        + ", block='"@ + k.3 + "'"@
}

/// How an operator key is listed in registry introspection.
pub open spec fn operator_key_summary(k: OperatorKeyView) -> Seq<char> {
    "("@ + k.0 + ", "@ + k.1 + ", "@ + decimal(k.2 as nat) + "d, "@ + k.3 + ", "@ + k.4 + ", o"@
        + decimal(k.5 as nat) + ", "@ + k.6 + ")"@
}

/// How a preconditioner key is listed in registry introspection.
pub open spec fn preconditioner_key_summary(k: PreconditionerKeyView) -> Seq<char> {
    "("@ + k.0 + ", "@ + k.1 + ", "@ + decimal(k.2 as nat) + "d, "@ + k.3 + ", "@ + k.4 + ", "@ + k.5
        + ", o"@ + decimal(k.6 as nat) + ", "@ + k.7 + ")"@
}

/// How a solver key is listed in registry introspection.
pub open spec fn solver_key_summary(k: SolverKeyView) -> Seq<char> {
    "("@ + k.0 + ", spd="@ + bool_text(k.1) + ", complex="@ + bool_text(k.2) + ", "@ + k.3 + ")"@
}

impl OperatorKey {
    /// Build a key from its parts.
    pub fn new(
        equation_family: &str,
        backend: &str,
        dimension: u8,
        space_signature: &str,
        element_family: &str,
        order: u8,
        block_structure: &str,
    ) -> (k: OperatorKey)
        ensures
            k@ == (equation_family@, backend@, dimension, space_signature@, element_family@, order, block_structure@),
    {
        OperatorKey {
            equation_family: String::from_str(equation_family),
            backend: String::from_str(backend),
            dimension,
            space_signature: String::from_str(space_signature),
            element_family: String::from_str(element_family),
            order,
            block_structure: String::from_str(block_structure),
        }
    }

    /// Whether two keys hold the same values.
    pub fn same_as(&self, other: &OperatorKey) -> (b: bool)
        ensures
            b == (self@ == other@),
    {
        str_eq(self.equation_family.as_str(), other.equation_family.as_str())
            && str_eq(self.backend.as_str(), other.backend.as_str())
            && self.dimension == other.dimension
            && str_eq(self.space_signature.as_str(), other.space_signature.as_str())
            && str_eq(self.element_family.as_str(), other.element_family.as_str())
            && self.order == other.order
            && str_eq(self.block_structure.as_str(), other.block_structure.as_str())
    }

    /// The description used in messages.
    pub fn describe(&self) -> (s: String)
        ensures
            s@ == operator_key_description(self@),
    {
        let mut s = String::new();
        push_str(&mut s, "equation_family='");
        push_str(&mut s, self.equation_family.as_str());
        push_str(&mut s, "', backend='");
        push_str(&mut s, self.backend.as_str());
        push_str(&mut s, "', dimension=");
        push_decimal(&mut s, self.dimension as usize);
        push_str(&mut s, ", space='");
        push_str(&mut s, self.space_signature.as_str());
        push_str(&mut s, "', element='");
        push_str(&mut s, self.element_family.as_str());
        push_str(&mut s, "', order=");
        push_decimal(&mut s, self.order as usize);
        push_str(&mut s, ", block='");
        push_str(&mut s, self.block_structure.as_str());
        push_str(&mut s, "'");
        s
    }

    /// The summary used in registry introspection.
    pub fn summary(&self) -> (s: String)
        ensures
            s@ == operator_key_summary(self@),
    {
        let mut s = String::new();
        push_str(&mut s, "(");
        push_str(&mut s, self.equation_family.as_str());
        push_str(&mut s, ", ");
        push_str(&mut s, self.backend.as_str());
        push_str(&mut s, ", ");
        push_decimal(&mut s, self.dimension as usize);
        push_str(&mut s, "d, ");
        push_str(&mut s, self.space_signature.as_str());
        push_str(&mut s, ", ");
        push_str(&mut s, self.element_family.as_str());
        push_str(&mut s, ", o");
        push_decimal(&mut s, self.order as usize);
        push_str(&mut s, ", ");
        push_str(&mut s, self.block_structure.as_str());
        push_str(&mut s, ")");
        s
    }
}

impl PreconditionerKey {
    /// Build a key from its parts.
    pub fn new(
        precond_type: &str,
        backend: &str,
        dimension: u8,
        operator_family: &str,
        space_signature: &str,
        element_family: &str,
        order: u8,
        block_structure: &str,
    ) -> (k: PreconditionerKey)
        ensures
            k@ == (precond_type@, backend@, dimension, operator_family@, space_signature@, element_family@, order, block_structure@),
    {
        PreconditionerKey {
            precond_type: String::from_str(precond_type),
            backend: String::from_str(backend),
            dimension,
            operator_family: String::from_str(operator_family),
            space_signature: String::from_str(space_signature),
            element_family: String::from_str(element_family),
            order,
            block_structure: String::from_str(block_structure),
        }
    }

    /// Whether two keys hold the same values.
    pub fn same_as(&self, other: &PreconditionerKey) -> (b: bool)
        ensures
            b == (self@ == other@),
    {
        str_eq(self.precond_type.as_str(), other.precond_type.as_str())
            && str_eq(self.backend.as_str(), other.backend.as_str())
            && self.dimension == other.dimension
            && str_eq(self.operator_family.as_str(), other.operator_family.as_str())
            && str_eq(self.space_signature.as_str(), other.space_signature.as_str())
            && str_eq(self.element_family.as_str(), other.element_family.as_str())
            && self.order == other.order
            && str_eq(self.block_structure.as_str(), other.block_structure.as_str())
    }

    /// The description used in messages.
    pub fn describe(&self) -> (s: String)
        ensures
            s@ == preconditioner_key_description(self@),
    {
        let mut s = String::new();
        push_str(&mut s, "precond_type='");
        push_str(&mut s, self.precond_type.as_str());
        push_str(&mut s, "', backend='");
        push_str(&mut s, self.backend.as_str());
        push_str(&mut s, "', dimension=");
        push_decimal(&mut s, self.dimension as usize);
        push_str(&mut s, ", op_family='");
        push_str(&mut s, self.operator_family.as_str());
        push_str(&mut s, "', space='");
        push_str(&mut s, self.space_signature.as_str());
        push_str(&mut s, "', element='");
        push_str(&mut s, self.element_family.as_str());
        push_str(&mut s, "', order=");
        push_decimal(&mut s, self.order as usize);
        push_str(&mut s, ", block='");
        push_str(&mut s, self.block_structure.as_str());
        push_str(&mut s, "'");
        s
    }

    /// The summary used in registry introspection.
    pub fn summary(&self) -> (s: String)
        ensures
            s@ == preconditioner_key_summary(self@),
    {
        let mut s = String::new();
        push_str(&mut s, "(");
        push_str(&mut s, self.precond_type.as_str());
        push_str(&mut s, ", ");
        push_str(&mut s, self.backend.as_str());
        push_str(&mut s, ", ");
        push_decimal(&mut s, self.dimension as usize);
        push_str(&mut s, "d, ");
        push_str(&mut s, self.operator_family.as_str());
        push_str(&mut s, ", ");
        push_str(&mut s, self.space_signature.as_str());
        push_str(&mut s, ", ");
        push_str(&mut s, self.element_family.as_str());
        push_str(&mut s, ", o");
        push_decimal(&mut s, self.order as usize);
        push_str(&mut s, ", ");
        push_str(&mut s, self.block_structure.as_str());
        push_str(&mut s, ")");
        s
    }
}

impl SolverKey {
    /// Build a key from its parts.
    pub fn new(solver_type: &str, spd: bool, complex: bool, block_structure: &str) -> (k: SolverKey)
        ensures
            k@ == (solver_type@, spd, complex, block_structure@),
    {
        SolverKey {
            solver_type: String::from_str(solver_type),
            spd,
            complex,
            block_structure: String::from_str(block_structure),
        }
    }

    /// Whether two keys hold the same values.
    pub fn same_as(&self, other: &SolverKey) -> (b: bool)
        ensures
            b == (self@ == other@),
    {
        str_eq(self.solver_type.as_str(), other.solver_type.as_str())
            && self.spd == other.spd
            && self.complex == other.complex
            && str_eq(self.block_structure.as_str(), other.block_structure.as_str())
    }

    /// The description used in messages.
    pub fn describe(&self) -> (s: String)
        ensures
            s@ == solver_key_description(self@),
    {
        let mut s = String::new();
        push_str(&mut s, "solver_type='");
        push_str(&mut s, self.solver_type.as_str());
        push_str(&mut s, "', spd=");
        push_bool(&mut s, self.spd);
        push_str(&mut s, ", complex=");
        push_bool(&mut s, self.complex);
        push_str(&mut s, ", block='");
        push_str(&mut s, self.block_structure.as_str());
        push_str(&mut s, "'");
        s
    }

    /// The summary used in registry introspection.
    pub fn summary(&self) -> (s: String)
        ensures
            s@ == solver_key_summary(self@),
    {
        let mut s = String::new();
        push_str(&mut s, "(");
        push_str(&mut s, self.solver_type.as_str());
        push_str(&mut s, ", spd=");
        push_bool(&mut s, self.spd);
        push_str(&mut s, ", complex=");
        push_bool(&mut s, self.complex);
        push_str(&mut s, ", ");
        push_str(&mut s, self.block_structure.as_str());
        push_str(&mut s, ")");
        s
    }
}

} // verus!
