//! What a method pack registers: problem builders and operator,
//! preconditioner and solver factories, described by the values the
//! registry selects them by.

use vstd::prelude::*;
use crate::capability::Capability;
use crate::keys::{OperatorKey, OperatorKeyView, PreconditionerKey, PreconditionerKeyView, SolverKey, SolverKeyView};
use crate::text::{str_eq, views};

verus! {

/// A problem builder: it translates a case of one equation type into an
/// executable problem, for the dimensions and backends it lists.
#[derive(Debug)]
pub struct ProblemBuilder {
    /// Human-readable builder name (e.g. "PoissonBuilder").
    pub name: String,
    /// The equation type this builder handles.
    pub equation_type: String,
    /// Dimensions this builder supports.
    pub dimensions: Vec<u8>,
    /// Backends this builder supports ("assembled", "matrixfree").
    pub backends: Vec<String>,
}

/// A factory that produces linear operators for the keys it lists.
#[derive(Debug)]
pub struct OperatorFactory {
    /// Human readable factory name.
    pub name: String,
    /// Keys this factory can handle.
    pub keys: Vec<OperatorKey>,
    /// Capabilities this factory provides when used.
    pub provided: Vec<Capability>,
    /// Capabilities that must already be available for this factory to work.
    pub required: Vec<Capability>,
}

/// A factory that produces preconditioners for the keys it lists.
#[derive(Debug)]
pub struct PreconditionerFactory {
    /// Human readable factory name.
    pub name: String,
    /// Keys this factory can handle.
    pub keys: Vec<PreconditionerKey>,
    /// Capabilities this factory provides when used.
    pub provided: Vec<Capability>,
    /// Capabilities that must already be available for this factory to work.
    pub required: Vec<Capability>,
}

/// A factory that runs a solver for the keys it lists.
#[derive(Debug)]
pub struct SolverFactory {
    /// Human readable factory name.
    pub name: String,
    /// Keys this factory can handle.
    pub keys: Vec<SolverKey>,
    /// Capabilities this factory provides when used.
    pub provided: Vec<Capability>,
    /// Capabilities that must already be available for this factory to work.
    pub required: Vec<Capability>,
}

/// Whether a builder handles an equation type, a dimension and a backend.
pub open spec fn builder_supports(b: ProblemBuilder, equation_type: Seq<char>, dimension: u8, backend: Seq<char>) -> bool {
    &&& b.equation_type@ == equation_type
    &&& b.dimensions@.contains(dimension)
    &&& views(b.backends@).contains(backend)
}

/// The key values an operator factory lists.
pub open spec fn operator_key_views(f: OperatorFactory) -> Seq<OperatorKeyView> {
    f.keys@.map_values(|k: OperatorKey| k@)
}

/// The key values a preconditioner factory lists.
pub open spec fn preconditioner_key_views(f: PreconditionerFactory) -> Seq<PreconditionerKeyView> {
    f.keys@.map_values(|k: PreconditionerKey| k@)
}

/// The key values a solver factory lists.
pub open spec fn solver_key_views(f: SolverFactory) -> Seq<SolverKeyView> {
    f.keys@.map_values(|k: SolverKey| k@)
}

fn contains_u8(v: &Vec<u8>, x: u8) -> (b: bool)
    ensures
        b == v@.contains(x),
{
    let mut i: usize = 0;
    while i < v.len()
        invariant
            i <= v@.len(),
            forall|k: int| 0 <= k < i ==> v@[k] != x,
        decreases v@.len() - i,
    {
        if v[i] == x {
            assert(v@[i as int] == x);
            return true;
        }
        i = i + 1;
    }
    false
}

fn contains_str(v: &Vec<String>, x: &str) -> (b: bool)
    ensures
        b == views(v@).contains(x@),
{
    let mut i: usize = 0;
    while i < v.len()
        invariant
            i <= v@.len(),
            forall|k: int| 0 <= k < i ==> #[trigger] v@[k]@ != x@,
        decreases v@.len() - i,
    {
        if str_eq(v[i].as_str(), x) {
            assert(views(v@)[i as int] == x@);
            return true;
        }
        i = i + 1;
    }
    proof {
        if views(v@).contains(x@) {
            let k = choose|k: int| 0 <= k < views(v@).len() && views(v@)[k] == x@;
            assert(v@[k]@ == x@);
        }
    }
    false
}

impl ProblemBuilder {
    /// Human-readable builder name.
    pub fn name(&self) -> (s: &str)
        ensures
            s@ == self.name@,
    {
        self.name.as_str()
    }

    /// The equation type this builder handles.
    pub fn equation_type(&self) -> (s: &str)
        ensures
            s@ == self.equation_type@,
    {
        self.equation_type.as_str()
    }

    /// Dimensions this builder supports.
    pub fn supported_dimensions(&self) -> (d: &Vec<u8>)
        ensures
            d@ == self.dimensions@,
    {
        &self.dimensions
    }

    /// Backends this builder supports.
    pub fn supported_backends(&self) -> (b: &Vec<String>)
        ensures
            b@ == self.backends@,
    {
        &self.backends
    }

    /// Whether this builder handles an equation type, a dimension and a
    /// backend.
    pub fn supports(&self, equation_type: &str, dimension: u8, backend: &str) -> (b: bool)
        ensures
            b == builder_supports(*self, equation_type@, dimension, backend@),
    {
        str_eq(self.equation_type.as_str(), equation_type) && contains_u8(&self.dimensions, dimension)
            && contains_str(&self.backends, backend)
    }
}

impl OperatorFactory {
    /// Human readable factory name.
    pub fn name(&self) -> (s: &str)
        ensures
            s@ == self.name@,
    {
        self.name.as_str()
    }

    /// Keys this factory can handle.
    pub fn supported_keys(&self) -> (k: &Vec<OperatorKey>)
        ensures
            k@ == self.keys@,
    {
        &self.keys
    }

    /// Capabilities this factory provides when used.
    pub fn capabilities_provided(&self) -> (c: &Vec<Capability>)
        ensures
            c@ == self.provided@,
    {
        &self.provided
    }

    /// Capabilities that must already be available for this factory to work.
    pub fn capabilities_required(&self) -> (c: &Vec<Capability>)
        ensures
            c@ == self.required@,
    {
        &self.required
    }

    /// Whether this factory lists `key`.
    pub fn supports(&self, key: &OperatorKey) -> (b: bool)
        ensures
            b == operator_key_views(*self).contains(key@),
    {
        let mut i: usize = 0;
        while i < self.keys.len()
            invariant
                i <= self.keys@.len(),
                forall|k: int| 0 <= k < i ==> #[trigger] self.keys@[k]@ != key@,
            decreases self.keys@.len() - i,
        {
            if self.keys[i].same_as(key) {
                assert(operator_key_views(*self)[i as int] == key@);
                return true;
            }
            i = i + 1;
        }
        proof {
            if operator_key_views(*self).contains(key@) {
                let k = choose|k: int| 0 <= k < operator_key_views(*self).len() && operator_key_views(*self)[k] == key@;
                assert(self.keys@[k]@ == key@);
            }
        }
        false
    }
}

impl PreconditionerFactory {
    /// Human readable factory name.
    pub fn name(&self) -> (s: &str)
        ensures
            s@ == self.name@,
    {
        self.name.as_str()
    }

    /// Keys this factory can handle.
    pub fn supported_keys(&self) -> (k: &Vec<PreconditionerKey>)
        ensures
            k@ == self.keys@,
    {
        &self.keys
    }

    /// Capabilities this factory provides when used.
    pub fn capabilities_provided(&self) -> (c: &Vec<Capability>)
        ensures
            c@ == self.provided@,
    {
        &self.provided
    }

    /// Capabilities that must already be available for this factory to work.
    pub fn capabilities_required(&self) -> (c: &Vec<Capability>)
        ensures
            c@ == self.required@,
    {
        &self.required
    }

    /// Whether this factory lists `key`.
    pub fn supports(&self, key: &PreconditionerKey) -> (b: bool)
        ensures
            b == preconditioner_key_views(*self).contains(key@),
    {
        let mut i: usize = 0;
        while i < self.keys.len()
            invariant
                i <= self.keys@.len(),
                forall|k: int| 0 <= k < i ==> #[trigger] self.keys@[k]@ != key@,
            decreases self.keys@.len() - i,
        {
            if self.keys[i].same_as(key) {
                assert(preconditioner_key_views(*self)[i as int] == key@);
                return true;
            }
            i = i + 1;
        }
        proof {
            if preconditioner_key_views(*self).contains(key@) {
                let k = choose|k: int| 0 <= k < preconditioner_key_views(*self).len() && preconditioner_key_views(*self)[k] == key@;
                assert(self.keys@[k]@ == key@);
            }
        }
        false
    }
}

impl SolverFactory {
    /// Human readable factory name.
    pub fn name(&self) -> (s: &str)
        ensures
            s@ == self.name@,
    {
        self.name.as_str()
    }

    /// Keys this factory can handle.
    pub fn supported_keys(&self) -> (k: &Vec<SolverKey>)
        ensures
            k@ == self.keys@,
    {
        &self.keys
    }

    /// Capabilities this factory provides when used.
    pub fn capabilities_provided(&self) -> (c: &Vec<Capability>)
        ensures
            c@ == self.provided@,
    {
        &self.provided
    }

    /// Capabilities that must already be available for this factory to work.
    pub fn capabilities_required(&self) -> (c: &Vec<Capability>)
        ensures
            c@ == self.required@,
    {
        &self.required
    }

    /// Whether this factory lists `key`.
    pub fn supports(&self, key: &SolverKey) -> (b: bool)
        ensures
            b == solver_key_views(*self).contains(key@),
    {
        let mut i: usize = 0;
        while i < self.keys.len()
            invariant
                i <= self.keys@.len(),
                forall|k: int| 0 <= k < i ==> #[trigger] self.keys@[k]@ != key@,
            decreases self.keys@.len() - i,
        {
            if self.keys[i].same_as(key) {
                assert(solver_key_views(*self)[i as int] == key@);
                return true;
            }
            i = i + 1;
        }
        proof {
            if solver_key_views(*self).contains(key@) {
                let k = choose|k: int| 0 <= k < solver_key_views(*self).len() && solver_key_views(*self)[k] == key@;
                assert(self.keys@[k]@ == key@);
            }
        }
        false
    }
}

} // verus!
