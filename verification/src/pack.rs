//! Method packs: self-contained sets of builders and factories that are
//! registered into the method registry together, under the pack's name.

use vstd::prelude::*;
use crate::capability::Capability;
use crate::components::{OperatorFactory, PreconditionerFactory, ProblemBuilder, SolverFactory};
use crate::registry::{pack_label, MethodRegistry};

verus! {

/// A method pack: its name, version, the capabilities it provides, and
/// the components it registers.
#[derive(Debug)]
pub struct PackEntry {
    /// Human-readable pack name.
    pub name: String,
    /// Pack version string.
    pub version: String,
    /// Capabilities this pack provides.
    pub capabilities: Vec<Capability>,
    /// Problem builders the pack registers.
    pub builders: Vec<ProblemBuilder>,
    /// Operator factories the pack registers.
    pub operator_factories: Vec<OperatorFactory>,
    /// Preconditioner factories the pack registers.
    pub preconditioner_factories: Vec<PreconditionerFactory>,
    /// Solver factories the pack registers.
    pub solver_factories: Vec<SolverFactory>,
}

impl PackEntry {
    /// Human-readable pack name.
    pub fn name(&self) -> (s: &str)
        ensures
            s@ == self.name@,
    {
        self.name.as_str()
    }

    /// Pack version string.
    pub fn version(&self) -> (s: &str)
        ensures
            s@ == self.version@,
    {
        self.version.as_str()
    }

    /// Capabilities this pack provides.
    pub fn capabilities(&self) -> (c: &Vec<Capability>)
        ensures
            c@ == self.capabilities@,
    {
        &self.capabilities
    }

    /// Register the pack's components into the registry, under the pack
    /// currently being registered there.
    pub fn register(self, registry: &mut MethodRegistry)
        ensures
            final(registry).builder_entries() == old(registry).builder_entries()
                + self.builders@.map_values(|b: ProblemBuilder| (pack_label(old(registry).current()), b)),
            final(registry).operator_entries() == old(registry).operator_entries()
                + self.operator_factories@.map_values(|f: OperatorFactory| (pack_label(old(registry).current()), f)),
            final(registry).preconditioner_entries() == old(registry).preconditioner_entries()
                + self.preconditioner_factories@.map_values(
                |f: PreconditionerFactory| (pack_label(old(registry).current()), f),
            ),
            final(registry).solver_entries() == old(registry).solver_entries()
                + self.solver_factories@.map_values(|f: SolverFactory| (pack_label(old(registry).current()), f)),
            final(registry).capability_set() == old(registry).capability_set(),
            final(registry).current() == old(registry).current(),
    {
        let ghost label = pack_label(registry.current());
        let ghost start = *registry;
        let PackEntry { name: _, version: _, capabilities: _, builders, operator_factories, preconditioner_factories, solver_factories } = self;

        let ghost bs = builders@;
        let mut builders = builders;
        let ghost mut i: int = 0;
        while builders.len() > 0
            invariant
                0 <= i,
                i + builders@.len() == bs.len(),
                builders@ == bs.subrange(i as int, bs.len() as int),
                label == pack_label(registry.current()),
                registry.current() == start.current(),
                registry.builder_entries() == start.builder_entries()
                    + bs.take(i as int).map_values(|b: ProblemBuilder| (label, b)),
                registry.operator_entries() == start.operator_entries(),
                registry.preconditioner_entries() == start.preconditioner_entries(),
                registry.solver_entries() == start.solver_entries(),
                registry.capability_set() == start.capability_set(),
            decreases builders@.len(),
        {
            let b = builders.remove(0);
            registry.register_builder(b);
            proof {
                assert(bs.take(i + 1).map_values(|b: ProblemBuilder| (label, b))
                    =~= bs.take(i as int).map_values(|b: ProblemBuilder| (label, b)).push((label, bs[i as int])));
                assert(builders@ =~= bs.subrange(i + 1, bs.len() as int));
            }
            proof { i = i + 1; }
        }
        assert(bs.take(bs.len() as int) =~= bs);

        let ghost os = operator_factories@;
        let mut ops = operator_factories;
        let ghost mut i: int = 0;
        while ops.len() > 0
            invariant
                0 <= i,
                i + ops@.len() == os.len(),
                ops@ == os.subrange(i as int, os.len() as int),
                label == pack_label(registry.current()),
                registry.current() == start.current(),
                registry.builder_entries() == start.builder_entries()
                    + bs.map_values(|b: ProblemBuilder| (label, b)),
                registry.operator_entries() == start.operator_entries()
                    + os.take(i as int).map_values(|f: OperatorFactory| (label, f)),
                registry.preconditioner_entries() == start.preconditioner_entries(),
                registry.solver_entries() == start.solver_entries(),
                registry.capability_set() == start.capability_set(),
            decreases ops@.len(),
        {
            let f = ops.remove(0);
            registry.register_operator_factory(f);
            proof {
                assert(os.take(i + 1).map_values(|f: OperatorFactory| (label, f))
                    =~= os.take(i as int).map_values(|f: OperatorFactory| (label, f)).push((label, os[i as int])));
                assert(ops@ =~= os.subrange(i + 1, os.len() as int));
            }
            proof { i = i + 1; }
        }
        assert(os.take(os.len() as int) =~= os);

        let ghost ps = preconditioner_factories@;
        let mut pcs = preconditioner_factories;
        let ghost mut i: int = 0;
        while pcs.len() > 0
            invariant
                0 <= i,
                i + pcs@.len() == ps.len(),
                pcs@ == ps.subrange(i as int, ps.len() as int),
                label == pack_label(registry.current()),
                registry.current() == start.current(),
                registry.builder_entries() == start.builder_entries()
                    + bs.map_values(|b: ProblemBuilder| (label, b)),
                registry.operator_entries() == start.operator_entries()
                    + os.map_values(|f: OperatorFactory| (label, f)),
                registry.preconditioner_entries() == start.preconditioner_entries()
                    + ps.take(i as int).map_values(|f: PreconditionerFactory| (label, f)),
                registry.solver_entries() == start.solver_entries(),
                registry.capability_set() == start.capability_set(),
            decreases pcs@.len(),
        {
            let f = pcs.remove(0);
            registry.register_preconditioner_factory(f);
            proof {
                assert(ps.take(i + 1).map_values(|f: PreconditionerFactory| (label, f))
                    =~= ps.take(i as int).map_values(|f: PreconditionerFactory| (label, f)).push((label, ps[i as int])));
                assert(pcs@ =~= ps.subrange(i + 1, ps.len() as int));
            }
            proof { i = i + 1; }
        }
        assert(ps.take(ps.len() as int) =~= ps);

        let ghost ss = solver_factories@;
        let mut slv = solver_factories;
        let ghost mut i: int = 0;
        while slv.len() > 0
            invariant
                0 <= i,
                i + slv@.len() == ss.len(),
                slv@ == ss.subrange(i as int, ss.len() as int),
                label == pack_label(registry.current()),
                registry.current() == start.current(),
                registry.builder_entries() == start.builder_entries()
                    + bs.map_values(|b: ProblemBuilder| (label, b)),
                registry.operator_entries() == start.operator_entries()
                    + os.map_values(|f: OperatorFactory| (label, f)),
                registry.preconditioner_entries() == start.preconditioner_entries()
                    + ps.map_values(|f: PreconditionerFactory| (label, f)),
                registry.solver_entries() == start.solver_entries()
                    + ss.take(i as int).map_values(|f: SolverFactory| (label, f)),
                registry.capability_set() == start.capability_set(),
            decreases slv@.len(),
        {
            let f = slv.remove(0);
            registry.register_solver_factory(f);
            proof {
                assert(ss.take(i + 1).map_values(|f: SolverFactory| (label, f))
                    =~= ss.take(i as int).map_values(|f: SolverFactory| (label, f)).push((label, ss[i as int])));
                assert(slv@ =~= ss.subrange(i + 1, ss.len() as int));
            }
            proof { i = i + 1; }
        }
        assert(ss.take(ss.len() as int) =~= ss);
    }
}

} // verus!
