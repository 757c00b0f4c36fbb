//! Method registry: stores the problem builders and the operator,
//! preconditioner and solver factories registered by method packs, and
//! selects among them by typed keys, detecting ambiguous selections.

use vstd::prelude::*;
use crate::capability::{label, Capability, CapabilitySet};
use crate::components::{
    builder_supports, operator_key_views, preconditioner_key_views, solver_key_views, OperatorFactory,
    PreconditionerFactory, ProblemBuilder, SolverFactory,
};
use crate::keys::{
    operator_key_description, operator_key_summary, preconditioner_key_description,
    preconditioner_key_summary, solver_key_description, solver_key_summary, OperatorKey,
    PreconditionerKey, SolverKey,
};
use crate::pack::PackEntry;
use crate::packs::{catalog_view, iter_packs, pack_view};
use crate::text::{
    debug_list, decimal, join, join_strings, push_debug_list, push_decimal, push_str, sorted_indices,
    stable_order_by_key, views,
};

verus! {

// ---------------------------------------------------------------------------
// Selection results
// ---------------------------------------------------------------------------

/// Metadata about a selected builder, for traceability in solve output.
#[derive(Debug, Clone)]
pub struct BuilderSelection {
    pub pack_name: String,
    pub builder_name: String,
}

/// One candidate in an ambiguity report.
#[derive(Debug, Clone)]
pub struct BuilderCandidate {
    pub pack_name: String,
    pub builder_name: String,
}

/// Structured error when multiple builders match a query.
#[derive(Debug, Clone)]
pub struct AmbiguousBuilderError {
    pub equation_type: String,
    pub dimension: u8,
    pub backend: String,
    pub candidates: Vec<BuilderCandidate>,
}

/// Result of a builder lookup that detects conflicts.
#[derive(Debug, Clone)]
pub enum BuilderLookup {
    /// Exactly one builder matched; `index` is its registration position.
    Found { index: usize, selection: BuilderSelection },
    /// No builder matched.
    NotFound,
    /// Multiple builders matched.
    Ambiguous(AmbiguousBuilderError),
}

/// Metadata about a selected component factory, for traceability.
#[derive(Debug, Clone)]
pub struct ComponentSelection {
    pub pack_name: String,
    pub component_name: String,
    pub component_type: String,
}

/// One candidate in a component ambiguity report.
#[derive(Debug, Clone)]
pub struct ComponentCandidate {
    pub pack_name: String,
    pub component_name: String,
}

/// Structured error when multiple component factories match a query.
#[derive(Debug, Clone)]
pub struct AmbiguousComponentError {
    pub component_type: String,
    pub key_description: String,
    pub candidates: Vec<ComponentCandidate>,
}

/// Result of a component factory lookup with conflict detection.
#[derive(Debug, Clone)]
pub enum ComponentLookup {
    /// Exactly one factory matched; `index` is its registration position.
    Found { index: usize, selection: ComponentSelection },
    /// No factory matched.
    NotFound,
    /// Multiple factories matched.
    Ambiguous(AmbiguousComponentError),
}

/// Serializable pack description for the `list` command.
#[derive(Debug, Clone)]
pub struct PackInfo {
    pub name: String,
    pub version: String,
    pub capabilities: Vec<String>,
}

/// Introspection record of a registered builder.
#[derive(Debug, Clone)]
pub struct BuilderInfo {
    pub name: String,
    pub pack: String,
    pub equation_type: String,
    /// Debug form of the supported dimensions, e.g. `[2, 3]`.
    pub dimensions: String,
    /// Debug form of the supported backends, e.g. `["assembled"]`.
    pub backends: String,
}

/// Introspection record of a registered factory.
#[derive(Debug, Clone)]
pub struct FactoryInfo {
    pub name: String,
    pub pack: String,
    /// "operator_factory", "preconditioner_factory" or "solver_factory".
    pub factory_type: String,
    /// The factory's keys, each summarized, separated by ", ".
    pub keys: String,
}

// ---------------------------------------------------------------------------
// Specifications
// ---------------------------------------------------------------------------

/// The positions of the elements of `s` that satisfy `pred`, in order.
pub open spec fn matching_indices<T>(s: Seq<T>, pred: spec_fn(T) -> bool) -> Seq<int>
    decreases s.len(),
{
    if s.len() == 0 {
        Seq::empty()
    } else {
        let prev = matching_indices(s.drop_last(), pred);
        if pred(s.last()) {
            prev.push(s.len() - 1)
        } else {
            prev
        }
    }
}

/// The pack name under which a component is recorded.
pub open spec fn pack_label(current: Option<Seq<char>>) -> Seq<char> {
    match current {
        Some(name) => name,
        None => "unknown"@,
    }
}

/// The builders a sequence of packs registers, each with its pack's name,
/// in pack order and then in registration order.
pub open spec fn registered_builders(packs: Seq<PackEntry>) -> Seq<(Seq<char>, ProblemBuilder)>
    decreases packs.len(),
{
    if packs.len() == 0 {
        Seq::empty()
    } else {
        let p = packs.last();
        registered_builders(packs.drop_last()) + p.builders@.map_values(|b: ProblemBuilder| (p.name@, b))
    }
}

/// The operator factories a sequence of packs registers.
pub open spec fn registered_operators(packs: Seq<PackEntry>) -> Seq<(Seq<char>, OperatorFactory)>
    decreases packs.len(),
{
    if packs.len() == 0 {
        Seq::empty()
    } else {
        let p = packs.last();
        registered_operators(packs.drop_last()) + p.operator_factories@.map_values(|f: OperatorFactory| (p.name@, f))
    }
}

/// The preconditioner factories a sequence of packs registers.
pub open spec fn registered_preconditioners(packs: Seq<PackEntry>) -> Seq<(Seq<char>, PreconditionerFactory)>
    decreases packs.len(),
{
    if packs.len() == 0 {
        Seq::empty()
    } else {
        let p = packs.last();
        registered_preconditioners(packs.drop_last())
            + p.preconditioner_factories@.map_values(|f: PreconditionerFactory| (p.name@, f))
    }
}

/// The solver factories a sequence of packs registers.
pub open spec fn registered_solvers(packs: Seq<PackEntry>) -> Seq<(Seq<char>, SolverFactory)>
    decreases packs.len(),
{
    if packs.len() == 0 {
        Seq::empty()
    } else {
        let p = packs.last();
        registered_solvers(packs.drop_last()) + p.solver_factories@.map_values(|f: SolverFactory| (p.name@, f))
    }
}

/// The values a pack info holds: name, version and capability labels.
pub open spec fn pack_info_view(i: PackInfo) -> (Seq<char>, Seq<char>, Seq<Seq<char>>) {
    (i.name@, i.version@, views(i.capabilities@))
}

/// The infos of the packs of the catalog, in catalog order.
pub open spec fn catalog_infos() -> Seq<(Seq<char>, Seq<char>, Seq<Seq<char>>)> {
    catalog_view().map_values(
        |p: crate::packs::PackView| (p.0, p.1, p.2.map_values(|c: Capability| label(c))),
    )
}

/// The infos of the packs of the catalog as listed: sorted by name, equal
/// names in catalog order.
pub open spec fn listed_pack_infos() -> Seq<(Seq<char>, Seq<char>, Seq<Seq<char>>)> {
    sorted_indices(
        catalog_infos().map_values(|x: (Seq<char>, Seq<char>, Seq<Seq<char>>)| x.0),
        catalog_infos().len(),
    ).map_values(|j: usize| catalog_infos()[j as int])
}

/// How a candidate is shown: `pack::name`.
pub open spec fn candidate_text(pack: Seq<char>, name: Seq<char>) -> Seq<char> {
    pack + "::"@ + name
}

/// The message of an ambiguous builder selection.
pub open spec fn ambiguous_builder_message(e: AmbiguousBuilderError) -> Seq<char> {
    "ambiguous builder selection: "@ + decimal(e.candidates@.len()) + " builders match equation='"@
        + e.equation_type@ + "', dim="@ + decimal(e.dimension as nat) + ", backend='"@ + e.backend@
        + "': "@ + join(
        e.candidates@.map_values(|c: BuilderCandidate| candidate_text(c.pack_name@, c.builder_name@)),
        ", "@,
    )
}

/// The message of an ambiguous component selection.
pub open spec fn ambiguous_component_message(e: AmbiguousComponentError) -> Seq<char> {
    "ambiguous "@ + e.component_type@ + " selection: "@ + decimal(e.candidates@.len())
        + " factories match "@ + e.key_description@ + ": "@ + join(
        e.candidates@.map_values(|c: ComponentCandidate| candidate_text(c.pack_name@, c.component_name@)),
        ", "@,
    )
}

/// The debug form of a list of dimensions: `[2, 3]`.
pub open spec fn dimensions_text(d: Seq<u8>) -> Seq<char> {
    "["@ + join(d.map_values(|x: u8| decimal(x as nat)), ", "@) + "]"@
}

/// The outcome a builder lookup must have over registered entries.
pub open spec fn builder_lookup_matches(
    es: Seq<(Seq<char>, ProblemBuilder)>,
    equation_type: Seq<char>,
    dimension: u8,
    backend: Seq<char>,
    r: BuilderLookup,
) -> bool {
    let m = matching_indices(es, |e: (Seq<char>, ProblemBuilder)| builder_supports(e.1, equation_type, dimension, backend));
    &&& (m.len() == 0 <==> r is NotFound)
    &&& (m.len() == 1 <==> r is Found)
    &&& (r matches BuilderLookup::Found { index, selection } ==> {
        &&& index == m[0]
        &&& selection.pack_name@ == es[index as int].0
        &&& selection.builder_name@ == es[index as int].1.name@
    })
    &&& (r matches BuilderLookup::Ambiguous(err) ==> {
        &&& err.equation_type@ == equation_type
        &&& err.dimension == dimension
        &&& err.backend@ == backend
        &&& err.candidates@.len() == m.len()
        &&& forall|k: int| 0 <= k < m.len() ==> {
            &&& (#[trigger] err.candidates@[k]).pack_name@ == es[m[k]].0
            &&& err.candidates@[k].builder_name@ == es[m[k]].1.name@
        }
    })
}

/// The outcome a component lookup must have, given the names and pack
/// names of the registered factories and which of them list the key.
pub open spec fn component_lookup_matches(
    packs: Seq<Seq<char>>,
    names: Seq<Seq<char>>,
    m: Seq<int>,
    component_type: Seq<char>,
    key_description: Seq<char>,
    r: ComponentLookup,
) -> bool {
    &&& (m.len() == 0 <==> r is NotFound)
    &&& (m.len() == 1 <==> r is Found)
    &&& (r matches ComponentLookup::Found { index, selection } ==> {
        &&& index == m[0]
        &&& selection.pack_name@ == packs[index as int]
        &&& selection.component_name@ == names[index as int]
        &&& selection.component_type@ == component_type
    })
    &&& (r matches ComponentLookup::Ambiguous(err) ==> {
        &&& err.component_type@ == component_type
        &&& err.key_description@ == key_description
        &&& err.candidates@.len() == m.len()
        &&& forall|k: int| 0 <= k < m.len() ==> {
            &&& (#[trigger] err.candidates@[k]).pack_name@ == packs[m[k]]
            &&& err.candidates@[k].component_name@ == names[m[k]]
        }
    })
}

proof fn lemma_matching_step<T>(s: Seq<T>, pred: spec_fn(T) -> bool, i: int)
    requires
        0 <= i < s.len(),
    ensures
        matching_indices(s.take(i + 1), pred) == if pred(s[i]) {
            matching_indices(s.take(i), pred).push(i)
        } else {
            matching_indices(s.take(i), pred)
        },
{
    assert(s.take(i + 1).drop_last() =~= s.take(i));
    assert(s.take(i + 1).last() == s[i]);
}

/// Every position listed by `matching_indices` is in range, satisfies the
/// predicate, and positions are listed in increasing order.
pub proof fn lemma_matching_indices_sound<T>(s: Seq<T>, pred: spec_fn(T) -> bool)
    ensures
        forall|k: int| 0 <= k < matching_indices(s, pred).len() ==> {
            &&& 0 <= #[trigger] matching_indices(s, pred)[k] < s.len()
            &&& pred(s[matching_indices(s, pred)[k]])
        },
        forall|k: int, l: int| 0 <= k < l < matching_indices(s, pred).len() ==>
            #[trigger] matching_indices(s, pred)[k] < #[trigger] matching_indices(s, pred)[l],
        forall|i: int| 0 <= i < s.len() && pred(s[i]) ==> #[trigger] matching_indices(s, pred).contains(i),
    decreases s.len(),
{
    if s.len() > 0 {
        lemma_matching_indices_sound(s.drop_last(), pred);
        let prev = matching_indices(s.drop_last(), pred);
        assert forall|i: int| 0 <= i < s.len() && pred(s[i]) implies #[trigger] matching_indices(s, pred).contains(i) by {
            if i < s.len() - 1 {
                assert(s.drop_last()[i] == s[i]);
                assert(prev.contains(i));
                let k = choose|k: int| 0 <= k < prev.len() && prev[k] == i;
                assert(matching_indices(s, pred)[k] == i);
            } else {
                assert(matching_indices(s, pred)[prev.len() as int] == i);
            }
        }
    }
}

// ---------------------------------------------------------------------------
// Internal storage
// ---------------------------------------------------------------------------

/// A builder paired with the pack that registered it.
#[derive(Debug)]
pub struct RegisteredBuilder {
    pub builder: ProblemBuilder,
    pub pack_name: String,
}

/// An operator factory paired with the pack that registered it.
#[derive(Debug)]
pub struct RegisteredOperatorFactory {
    pub factory: OperatorFactory,
    pub pack_name: String,
}

/// A preconditioner factory paired with the pack that registered it.
#[derive(Debug)]
pub struct RegisteredPreconditionerFactory {
    pub factory: PreconditionerFactory,
    pub pack_name: String,
}

/// A solver factory paired with the pack that registered it.
#[derive(Debug)]
pub struct RegisteredSolverFactory {
    pub factory: SolverFactory,
    pub pack_name: String,
}

// ---------------------------------------------------------------------------
// MethodRegistry
// ---------------------------------------------------------------------------

/// The method registry stores all components discovered from packs.
#[derive(Debug)]
pub struct MethodRegistry {
    entries: Vec<RegisteredBuilder>,
    operators: Vec<RegisteredOperatorFactory>,
    preconditioners: Vec<RegisteredPreconditionerFactory>,
    solvers: Vec<RegisteredSolverFactory>,
    capabilities: CapabilitySet,
    current_pack: Option<String>,
}

impl MethodRegistry {
    /// The registered builders, each with its pack name, in registration order.
    pub closed spec fn builder_entries(&self) -> Seq<(Seq<char>, ProblemBuilder)> {
        self.entries@.map_values(|e: RegisteredBuilder| (e.pack_name@, e.builder))
    }

    /// The registered operator factories, each with its pack name.
    pub closed spec fn operator_entries(&self) -> Seq<(Seq<char>, OperatorFactory)> {
        self.operators@.map_values(|e: RegisteredOperatorFactory| (e.pack_name@, e.factory))
    }

    /// The registered preconditioner factories, each with its pack name.
    pub closed spec fn preconditioner_entries(&self) -> Seq<(Seq<char>, PreconditionerFactory)> {
        self.preconditioners@.map_values(|e: RegisteredPreconditionerFactory| (e.pack_name@, e.factory))
    }

    /// The registered solver factories, each with its pack name.
    pub closed spec fn solver_entries(&self) -> Seq<(Seq<char>, SolverFactory)> {
        self.solvers@.map_values(|e: RegisteredSolverFactory| (e.pack_name@, e.factory))
    }

    /// The capabilities of all registered packs.
    pub closed spec fn capability_set(&self) -> Set<Capability> {
        self.capabilities@
    }

    /// The pack being registered, if any.
    pub closed spec fn current(&self) -> Option<Seq<char>> {
        match self.current_pack {
            Some(s) => Some(s@),
            None => None,
        }
    }

    /// Create an empty registry.
    pub fn new() -> (r: MethodRegistry)
        ensures
            r.builder_entries() == Seq::<(Seq<char>, ProblemBuilder)>::empty(),
            r.operator_entries() == Seq::<(Seq<char>, OperatorFactory)>::empty(),
            r.preconditioner_entries() == Seq::<(Seq<char>, PreconditionerFactory)>::empty(),
            r.solver_entries() == Seq::<(Seq<char>, SolverFactory)>::empty(),
            r.capability_set() == Set::<Capability>::empty(),
            r.current() is None,
    {
        let r = MethodRegistry {
            entries: Vec::new(),
            operators: Vec::new(),
            preconditioners: Vec::new(),
            solvers: Vec::new(),
            capabilities: CapabilitySet::new(),
            current_pack: None,
        };
        assert(r.builder_entries() =~= Seq::<(Seq<char>, ProblemBuilder)>::empty());
        assert(r.operator_entries() =~= Seq::<(Seq<char>, OperatorFactory)>::empty());
        assert(r.preconditioner_entries() =~= Seq::<(Seq<char>, PreconditionerFactory)>::empty());
        assert(r.solver_entries() =~= Seq::<(Seq<char>, SolverFactory)>::empty());
        r
    }

    fn current_label(&self) -> (s: String)
        ensures
            s@ == pack_label(self.current()),
    {
        match &self.current_pack {
            Some(name) => name.clone(),
            None => String::from_str("unknown"),
        }
    }

    /// Register a problem builder under the pack being registered.
    pub fn register_builder(&mut self, builder: ProblemBuilder)
        ensures
            final(self).builder_entries() == old(self).builder_entries().push((pack_label(old(self).current()), builder)),
            final(self).operator_entries() == old(self).operator_entries(),
            final(self).preconditioner_entries() == old(self).preconditioner_entries(),
            final(self).solver_entries() == old(self).solver_entries(),
            final(self).capability_set() == old(self).capability_set(),
            final(self).current() == old(self).current(),
    {
        let pack_name = self.current_label();
        self.entries.push(RegisteredBuilder { builder, pack_name });
        assert(self.builder_entries() =~= old(self).builder_entries().push((pack_label(old(self).current()), builder)));
    }

    /// Register an operator factory under the pack being registered.
    pub fn register_operator_factory(&mut self, factory: OperatorFactory)
        ensures
            final(self).operator_entries() == old(self).operator_entries().push((pack_label(old(self).current()), factory)),
            final(self).builder_entries() == old(self).builder_entries(),
            final(self).preconditioner_entries() == old(self).preconditioner_entries(),
            final(self).solver_entries() == old(self).solver_entries(),
            final(self).capability_set() == old(self).capability_set(),
            final(self).current() == old(self).current(),
    {
        let pack_name = self.current_label();
        self.operators.push(RegisteredOperatorFactory { factory, pack_name });
        assert(self.operator_entries() =~= old(self).operator_entries().push((pack_label(old(self).current()), factory)));
    }

    /// Register a preconditioner factory under the pack being registered.
    pub fn register_preconditioner_factory(&mut self, factory: PreconditionerFactory)
        ensures
            final(self).preconditioner_entries() == old(self).preconditioner_entries().push(
                (pack_label(old(self).current()), factory),
            ),
            final(self).builder_entries() == old(self).builder_entries(),
            final(self).operator_entries() == old(self).operator_entries(),
            final(self).solver_entries() == old(self).solver_entries(),
            final(self).capability_set() == old(self).capability_set(),
            final(self).current() == old(self).current(),
    {
        let pack_name = self.current_label();
        self.preconditioners.push(RegisteredPreconditionerFactory { factory, pack_name });
        assert(self.preconditioner_entries() =~= old(self).preconditioner_entries().push(
            (pack_label(old(self).current()), factory),
        ));
    }

    /// Register a solver factory under the pack being registered.
    pub fn register_solver_factory(&mut self, factory: SolverFactory)
        ensures
            final(self).solver_entries() == old(self).solver_entries().push((pack_label(old(self).current()), factory)),
            final(self).builder_entries() == old(self).builder_entries(),
            final(self).operator_entries() == old(self).operator_entries(),
            final(self).preconditioner_entries() == old(self).preconditioner_entries(),
            final(self).capability_set() == old(self).capability_set(),
            final(self).current() == old(self).current(),
    {
        let pack_name = self.current_label();
        self.solvers.push(RegisteredSolverFactory { factory, pack_name });
        assert(self.solver_entries() =~= old(self).solver_entries().push((pack_label(old(self).current()), factory)));
    }

    /// Register a capability.
    pub fn register_capability(&mut self, cap: Capability)
        ensures
            final(self).capability_set() == old(self).capability_set().insert(cap),
            final(self).builder_entries() == old(self).builder_entries(),
            final(self).operator_entries() == old(self).operator_entries(),
            final(self).preconditioner_entries() == old(self).preconditioner_entries(),
            final(self).solver_entries() == old(self).solver_entries(),
            final(self).current() == old(self).current(),
    {
        self.capabilities.insert(cap);
    }

    /// Record a pack: its capabilities become available and its
    /// components are registered under its name.
    fn begin_pack(&mut self, name: &String, caps: &Vec<Capability>)
        ensures
            final(self).current() == Some(name@),
            final(self).capability_set() == old(self).capability_set().union(Set::new(|c: Capability| caps@.contains(c))),
            final(self).builder_entries() == old(self).builder_entries(),
            final(self).operator_entries() == old(self).operator_entries(),
            final(self).preconditioner_entries() == old(self).preconditioner_entries(),
            final(self).solver_entries() == old(self).solver_entries(),
    {
        let set = CapabilitySet::from_slice(caps.as_slice());
        self.capabilities.extend(&set);
        assert(set@ =~= Set::new(|c: Capability| caps@.contains(c)));
        self.current_pack = Some(name.clone());
    }

    /// Build the registry from a sequence of packs: each pack's capabilities
    /// become available and its components are registered under its name,
    /// in pack order.
    pub fn from_pack_entries(packs: Vec<PackEntry>) -> (r: MethodRegistry)
        ensures
            r.builder_entries() == registered_builders(packs@),
            r.operator_entries() == registered_operators(packs@),
            r.preconditioner_entries() == registered_preconditioners(packs@),
            r.solver_entries() == registered_solvers(packs@),
            forall|c: Capability| #[trigger] r.capability_set().contains(c) <==> exists|i: int|
                0 <= i < packs@.len() && #[trigger] packs@[i].capabilities@.contains(c),
            r.current() is None,
    {
        let ghost all = packs@;
        let mut reg = MethodRegistry::new();
        let mut rest = packs;
        let ghost mut done: int = 0;
        while rest.len() > 0
            invariant
                0 <= done,
                done + rest@.len() == all.len(),
                rest@ == all.subrange(done as int, all.len() as int),
                reg.builder_entries() == registered_builders(all.take(done as int)),
                reg.operator_entries() == registered_operators(all.take(done as int)),
                reg.preconditioner_entries() == registered_preconditioners(all.take(done as int)),
                reg.solver_entries() == registered_solvers(all.take(done as int)),
                forall|c: Capability| #[trigger] reg.capability_set().contains(c) <==> exists|i: int|
                    0 <= i < done && #[trigger] all[i].capabilities@.contains(c),
                reg.current() is None,
            decreases rest@.len(),
        {
            let p = rest.remove(0);
            assert(p == all[done as int]);
            let ghost before = reg.capability_set();
            reg.begin_pack(&p.name, &p.capabilities);
            p.register(&mut reg);
            reg.current_pack = None;
            proof {
                let t = all.take(done + 1);
                assert(t.drop_last() =~= all.take(done as int));
                assert(t.last() == p);
                assert forall|c: Capability| #[trigger] reg.capability_set().contains(c) <==> exists|i: int|
                    0 <= i < done + 1 && #[trigger] all[i].capabilities@.contains(c) by {
                    if p.capabilities@.contains(c) {
                        assert(all[done as int].capabilities@.contains(c));
                    }
                    if exists|i: int| 0 <= i < done + 1 && #[trigger] all[i].capabilities@.contains(c) {
                        let i = choose|i: int| 0 <= i < done + 1 && #[trigger] all[i].capabilities@.contains(c);
                        if i < done {
                            assert(before.contains(c));
                        }
                    }
                }
                assert(rest@ =~= all.subrange(done + 1, all.len() as int));
            }
            proof { done = done + 1; }
        }
        proof {
            assert(all.take(all.len() as int) =~= all);
        }
        reg
    }

    /// Build the registry from every pack of the catalog.
    pub fn from_packs() -> (r: MethodRegistry)
        ensures
            exists|packs: Seq<PackEntry>| {
                &&& packs.map_values(|p: PackEntry| pack_view(p)) == catalog_view()
                &&& r.builder_entries() == registered_builders(packs)
                &&& r.operator_entries() == registered_operators(packs)
                &&& r.preconditioner_entries() == registered_preconditioners(packs)
                &&& r.solver_entries() == registered_solvers(packs)
                &&& (forall|c: Capability| #[trigger] r.capability_set().contains(c) <==> exists|i: int|
                    0 <= i < packs.len() && #[trigger] packs[i].capabilities@.contains(c))
            },
            r.current() is None,
    {
        let packs = iter_packs();
        let ghost ps = packs@;
        MethodRegistry::from_pack_entries(packs)
    }

    // -----------------------------------------------------------------------
    // Builder lookup
    // -----------------------------------------------------------------------

    fn builder_matches(&self, equation_type: &str, dimension: u8, backend: &str) -> (m: Vec<usize>)
        ensures
            m@.map_values(|x: usize| x as int) == matching_indices(
                self.builder_entries(),
                |e: (Seq<char>, ProblemBuilder)| builder_supports(e.1, equation_type@, dimension, backend@),
            ),
            forall|k: int| 0 <= k < m@.len() ==> #[trigger] m@[k] < self.entries@.len(),
    {
        let ghost es = self.builder_entries();
        let ghost pred = |e: (Seq<char>, ProblemBuilder)| builder_supports(e.1, equation_type@, dimension, backend@);
        let mut m: Vec<usize> = Vec::new();
        let n = self.entries.len();
        let mut i: usize = 0;
        while i < n
            invariant
                n == self.entries@.len(),
                es == self.builder_entries(),
                es.len() == n,
                pred == (|e: (Seq<char>, ProblemBuilder)| builder_supports(e.1, equation_type@, dimension, backend@)),
                i <= n,
                m@.map_values(|x: usize| x as int) == matching_indices(es.take(i as int), pred),
                forall|k: int| 0 <= k < m@.len() ==> #[trigger] m@[k] < i,
            decreases n - i,
        {
            proof { lemma_matching_step(es, pred, i as int); }
            if self.entries[i].builder.supports(equation_type, dimension, backend) {
                m.push(i);
                assert(m@.map_values(|x: usize| x as int) =~= matching_indices(es.take(i as int), pred).push(i as int));
            }
            i = i + 1;
        }
        assert(es.take(n as int) =~= es);
        m
    }

    /// Find the first builder that handles the equation type, dimension and
    /// backend; returns its registration position.
    pub fn find_builder(&self, equation_type: &str, dimension: u8, backend: &str) -> (r: Option<usize>)
        ensures
            ({
                let m = matching_indices(
                    self.builder_entries(),
                    |e: (Seq<char>, ProblemBuilder)| builder_supports(e.1, equation_type@, dimension, backend@),
                );
                &&& (m.len() == 0 <==> r is None)
                &&& (r matches Some(i) ==> i == m[0])
            }),
    {
        let m = self.builder_matches(equation_type, dimension, backend);
        if m.len() == 0 {
            None
        } else {
            assert(m@.map_values(|x: usize| x as int)[0] == m@[0] as int);
            Some(m[0])
        }
    }

    /// Find a builder with conflict detection and traceability metadata.
    pub fn find_builder_checked(&self, equation_type: &str, dimension: u8, backend: &str) -> (r: BuilderLookup)
        ensures
            builder_lookup_matches(self.builder_entries(), equation_type@, dimension, backend@, r),
    {
        let ghost es = self.builder_entries();
        let m = self.builder_matches(equation_type, dimension, backend);
        let ghost mi = m@.map_values(|x: usize| x as int);
        if m.len() == 0 {
            BuilderLookup::NotFound
        } else if m.len() == 1 {
            let e = &self.entries[m[0]];
            assert(es[m@[0] as int] == (e.pack_name@, e.builder));
            BuilderLookup::Found {
                index: m[0],
                selection: BuilderSelection { pack_name: e.pack_name.clone(), builder_name: e.builder.name.clone() },
            }
        } else {
            let mut candidates: Vec<BuilderCandidate> = Vec::new();
            let mut k: usize = 0;
            while k < m.len()
                invariant
                    es == self.builder_entries(),
                    mi == m@.map_values(|x: usize| x as int),
                    forall|j: int| 0 <= j < m@.len() ==> #[trigger] m@[j] < self.entries@.len(),
                    k <= m@.len(),
                    candidates@.len() == k,
                    forall|j: int| 0 <= j < k ==> {
                        &&& (#[trigger] candidates@[j]).pack_name@ == es[mi[j]].0
                        &&& candidates@[j].builder_name@ == es[mi[j]].1.name@
                    },
                decreases m@.len() - k,
            {
                let e = &self.entries[m[k]];
                assert(es[mi[k as int]] == (e.pack_name@, e.builder));
                candidates.push(BuilderCandidate { pack_name: e.pack_name.clone(), builder_name: e.builder.name.clone() });
                k = k + 1;
            }
            BuilderLookup::Ambiguous(AmbiguousBuilderError {
                equation_type: String::from_str(equation_type),
                dimension,
                backend: String::from_str(backend),
                candidates,
            })
        }
    }

    /// The registered builder at a registration position.
    pub fn builder_at(&self, index: usize) -> (b: &ProblemBuilder)
        requires
            index < self.builder_entries().len(),
        ensures
            *b == self.builder_entries()[index as int].1,
    {
        &self.entries[index].builder
    }

    // -----------------------------------------------------------------------
    // Component lookup
    // -----------------------------------------------------------------------

    /// Find the operator factory that lists `key`.
    pub fn find_operator(&self, key: &OperatorKey) -> (r: ComponentLookup)
        ensures
            component_lookup_matches(
                self.operator_entries().map_values(|e: (Seq<char>, OperatorFactory)| e.0),
                self.operator_entries().map_values(|e: (Seq<char>, OperatorFactory)| e.1.name@),
                matching_indices(
                    self.operator_entries(),
                    |e: (Seq<char>, OperatorFactory)| operator_key_views(e.1).contains(key@),
                ),
                "operator_factory"@,
                operator_key_description(key@),
                r,
            ),
    {
        let ghost es = self.operator_entries();
        let ghost pred = |e: (Seq<char>, OperatorFactory)| operator_key_views(e.1).contains(key@);
        let mut m: Vec<usize> = Vec::new();
        let n = self.operators.len();
        let mut i: usize = 0;
        while i < n
            invariant
                n == self.operators@.len(),
                es == self.operator_entries(),
                es.len() == n,
                pred == (|e: (Seq<char>, OperatorFactory)| operator_key_views(e.1).contains(key@)),
                i <= n,
                m@.map_values(|x: usize| x as int) == matching_indices(es.take(i as int), pred),
                forall|k: int| 0 <= k < m@.len() ==> #[trigger] m@[k] < i,
            decreases n - i,
        {
            proof { lemma_matching_step(es, pred, i as int); }
            if self.operators[i].factory.supports(key) {
                m.push(i);
                assert(m@.map_values(|x: usize| x as int) =~= matching_indices(es.take(i as int), pred).push(i as int));
            }
            i = i + 1;
        }
        assert(es.take(n as int) =~= es);
        let mut packs: Vec<String> = Vec::new();
        let mut names: Vec<String> = Vec::new();
        let mut k: usize = 0;
        while k < m.len()
            invariant
                es == self.operator_entries(),
                forall|j: int| 0 <= j < m@.len() ==> #[trigger] m@[j] < self.operators@.len(),
                k <= m@.len(),
                packs@.len() == k,
                names@.len() == k,
                forall|j: int| 0 <= j < k ==> (#[trigger] packs@[j])@ == es[m@[j] as int].0,
                forall|j: int| 0 <= j < k ==> (#[trigger] names@[j])@ == es[m@[j] as int].1.name@,
            decreases m@.len() - k,
        {
            let e = &self.operators[m[k]];
            assert(es[m@[k as int] as int] == (e.pack_name@, e.factory));
            packs.push(e.pack_name.clone());
            names.push(e.factory.name.clone());
            k = k + 1;
        }
        let desc = key.describe();
        let r = make_component_lookup(&m, packs, names, "operator_factory", desc);
        proof {
            let ps = es.map_values(|e: (Seq<char>, OperatorFactory)| e.0);
            let ns = es.map_values(|e: (Seq<char>, OperatorFactory)| e.1.name@);
            assert forall|j: int| 0 <= j < m@.len() implies ps[m@[j] as int] == es[m@[j] as int].0 && ns[m@[j] as int] == es[m@[j] as int].1.name@ by {}
        }
        r
    }

    /// Find the preconditioner factory that lists `key`.
    pub fn find_preconditioner(&self, key: &PreconditionerKey) -> (r: ComponentLookup)
        ensures
            component_lookup_matches(
                self.preconditioner_entries().map_values(|e: (Seq<char>, PreconditionerFactory)| e.0),
                self.preconditioner_entries().map_values(|e: (Seq<char>, PreconditionerFactory)| e.1.name@),
                matching_indices(
                    self.preconditioner_entries(),
                    |e: (Seq<char>, PreconditionerFactory)| preconditioner_key_views(e.1).contains(key@),
                ),
                "preconditioner_factory"@,
                preconditioner_key_description(key@),
                r,
            ),
    {
        let ghost es = self.preconditioner_entries();
        let ghost pred = |e: (Seq<char>, PreconditionerFactory)| preconditioner_key_views(e.1).contains(key@);
        let mut m: Vec<usize> = Vec::new();
        let n = self.preconditioners.len();
        let mut i: usize = 0;
        while i < n
            invariant
                n == self.preconditioners@.len(),
                es == self.preconditioner_entries(),
                es.len() == n,
                pred == (|e: (Seq<char>, PreconditionerFactory)| preconditioner_key_views(e.1).contains(key@)),
                i <= n,
                m@.map_values(|x: usize| x as int) == matching_indices(es.take(i as int), pred),
                forall|k: int| 0 <= k < m@.len() ==> #[trigger] m@[k] < i,
            decreases n - i,
        {
            proof { lemma_matching_step(es, pred, i as int); }
            if self.preconditioners[i].factory.supports(key) {
                m.push(i);
                assert(m@.map_values(|x: usize| x as int) =~= matching_indices(es.take(i as int), pred).push(i as int));
            }
            i = i + 1;
        }
        assert(es.take(n as int) =~= es);
        let mut packs: Vec<String> = Vec::new();
        let mut names: Vec<String> = Vec::new();
        let mut k: usize = 0;
        while k < m.len()
            invariant
                es == self.preconditioner_entries(),
                forall|j: int| 0 <= j < m@.len() ==> #[trigger] m@[j] < self.preconditioners@.len(),
                k <= m@.len(),
                packs@.len() == k,
                names@.len() == k,
                forall|j: int| 0 <= j < k ==> (#[trigger] packs@[j])@ == es[m@[j] as int].0,
                forall|j: int| 0 <= j < k ==> (#[trigger] names@[j])@ == es[m@[j] as int].1.name@,
            decreases m@.len() - k,
        {
            let e = &self.preconditioners[m[k]];
            assert(es[m@[k as int] as int] == (e.pack_name@, e.factory));
            packs.push(e.pack_name.clone());
            names.push(e.factory.name.clone());
            k = k + 1;
        }
        let desc = key.describe();
        let r = make_component_lookup(&m, packs, names, "preconditioner_factory", desc);
        proof {
            let ps = es.map_values(|e: (Seq<char>, PreconditionerFactory)| e.0);
            let ns = es.map_values(|e: (Seq<char>, PreconditionerFactory)| e.1.name@);
            assert forall|j: int| 0 <= j < m@.len() implies ps[m@[j] as int] == es[m@[j] as int].0 && ns[m@[j] as int] == es[m@[j] as int].1.name@ by {}
        }
        r
    }

    /// Find the solver factory that lists `key`.
    pub fn find_solver(&self, key: &SolverKey) -> (r: ComponentLookup)
        ensures
            component_lookup_matches(
                self.solver_entries().map_values(|e: (Seq<char>, SolverFactory)| e.0),
                self.solver_entries().map_values(|e: (Seq<char>, SolverFactory)| e.1.name@),
                matching_indices(
                    self.solver_entries(),
                    |e: (Seq<char>, SolverFactory)| solver_key_views(e.1).contains(key@),
                ),
                "solver_factory"@,
                solver_key_description(key@),
                r,
            ),
    {
        let ghost es = self.solver_entries();
        let ghost pred = |e: (Seq<char>, SolverFactory)| solver_key_views(e.1).contains(key@);
        let mut m: Vec<usize> = Vec::new();
        let n = self.solvers.len();
        let mut i: usize = 0;
        while i < n
            invariant
                n == self.solvers@.len(),
                es == self.solver_entries(),
                es.len() == n,
                pred == (|e: (Seq<char>, SolverFactory)| solver_key_views(e.1).contains(key@)),
                i <= n,
                m@.map_values(|x: usize| x as int) == matching_indices(es.take(i as int), pred),
                forall|k: int| 0 <= k < m@.len() ==> #[trigger] m@[k] < i,
            decreases n - i,
        {
            proof { lemma_matching_step(es, pred, i as int); }
            if self.solvers[i].factory.supports(key) {
                m.push(i);
                assert(m@.map_values(|x: usize| x as int) =~= matching_indices(es.take(i as int), pred).push(i as int));
            }
            i = i + 1;
        }
        assert(es.take(n as int) =~= es);
        let mut packs: Vec<String> = Vec::new();
        let mut names: Vec<String> = Vec::new();
        let mut k: usize = 0;
        while k < m.len()
            invariant
                es == self.solver_entries(),
                forall|j: int| 0 <= j < m@.len() ==> #[trigger] m@[j] < self.solvers@.len(),
                k <= m@.len(),
                packs@.len() == k,
                names@.len() == k,
                forall|j: int| 0 <= j < k ==> (#[trigger] packs@[j])@ == es[m@[j] as int].0,
                forall|j: int| 0 <= j < k ==> (#[trigger] names@[j])@ == es[m@[j] as int].1.name@,
            decreases m@.len() - k,
        {
            let e = &self.solvers[m[k]];
            assert(es[m@[k as int] as int] == (e.pack_name@, e.factory));
            packs.push(e.pack_name.clone());
            names.push(e.factory.name.clone());
            k = k + 1;
        }
        let desc = key.describe();
        let r = make_component_lookup(&m, packs, names, "solver_factory", desc);
        proof {
            let ps = es.map_values(|e: (Seq<char>, SolverFactory)| e.0);
            let ns = es.map_values(|e: (Seq<char>, SolverFactory)| e.1.name@);
            assert forall|j: int| 0 <= j < m@.len() implies ps[m@[j] as int] == es[m@[j] as int].0 && ns[m@[j] as int] == es[m@[j] as int].1.name@ by {}
        }
        r
    }

    /// The registered operator factory at a registration position.
    pub fn operator_factory_at(&self, index: usize) -> (f: &OperatorFactory)
        requires
            index < self.operator_entries().len(),
        ensures
            *f == self.operator_entries()[index as int].1,
    {
        &self.operators[index].factory
    }

    /// The registered preconditioner factory at a registration position.
    pub fn preconditioner_factory_at(&self, index: usize) -> (f: &PreconditionerFactory)
        requires
            index < self.preconditioner_entries().len(),
        ensures
            *f == self.preconditioner_entries()[index as int].1,
    {
        &self.preconditioners[index].factory
    }

    /// The registered solver factory at a registration position.
    pub fn solver_factory_at(&self, index: usize) -> (f: &SolverFactory)
        requires
            index < self.solver_entries().len(),
        ensures
            *f == self.solver_entries()[index as int].1,
    {
        &self.solvers[index].factory
    }

    // -----------------------------------------------------------------------
    // Introspection
    // -----------------------------------------------------------------------

    /// All capabilities from all registered packs.
    pub fn capabilities(&self) -> (c: &CapabilitySet)
        ensures
            c@ == self.capability_set(),
    {
        &self.capabilities
    }

    /// Introspection records of the registered builders, in registration order.
    pub fn builder_info(&self) -> (v: Vec<BuilderInfo>)
        ensures
            v@.len() == self.builder_entries().len(),
            forall|k: int| 0 <= k < v@.len() ==> builder_info_matches(#[trigger] v@[k], self.builder_entries()[k]),
    {
        let ghost es = self.builder_entries();
        let mut v: Vec<BuilderInfo> = Vec::new();
        let mut i: usize = 0;
        while i < self.entries.len()
            invariant
                es == self.builder_entries(),
                i <= self.entries@.len(),
                v@.len() == i,
                forall|k: int| 0 <= k < i ==> builder_info_matches(#[trigger] v@[k], es[k]),
            decreases self.entries@.len() - i,
        {
            let e = &self.entries[i];
            assert(es[i as int] == (e.pack_name@, e.builder));
            let mut dims = String::new();
            push_dimensions(&mut dims, &e.builder.dimensions);
            let mut backends = String::new();
            push_debug_list(&mut backends, &e.builder.backends);
            v.push(BuilderInfo {
                name: e.builder.name.clone(),
                pack: e.pack_name.clone(),
                equation_type: e.builder.equation_type.clone(),
                dimensions: dims,
                backends,
            });
            i = i + 1;
        }
        v
    }

    /// Introspection records of the registered operator factories.
    pub fn operator_factory_info(&self) -> (v: Vec<FactoryInfo>)
        ensures
            v@.len() == self.operator_entries().len(),
            forall|k: int| 0 <= k < v@.len() ==> {
                &&& (#[trigger] v@[k]).name@ == self.operator_entries()[k].1.name@
                &&& v@[k].pack@ == self.operator_entries()[k].0
                &&& v@[k].factory_type@ == "operator_factory"@
                &&& v@[k].keys@ == join(operator_key_views(self.operator_entries()[k].1).map_values(
                    |x| operator_key_summary(x)), ", "@)
            },
    {
        let ghost es = self.operator_entries();
        let mut v: Vec<FactoryInfo> = Vec::new();
        let mut i: usize = 0;
        while i < self.operators.len()
            invariant
                es == self.operator_entries(),
                i <= self.operators@.len(),
                v@.len() == i,
                forall|k: int| 0 <= k < i ==> {
                    &&& (#[trigger] v@[k]).name@ == es[k].1.name@
                    &&& v@[k].pack@ == es[k].0
                    &&& v@[k].factory_type@ == "operator_factory"@
                    &&& v@[k].keys@ == join(operator_key_views(es[k].1).map_values(|x| operator_key_summary(x)), ", "@)
                },
            decreases self.operators@.len() - i,
        {
            let e = &self.operators[i];
            assert(es[i as int] == (e.pack_name@, e.factory));
            let mut summaries: Vec<String> = Vec::new();
            let mut j: usize = 0;
            while j < e.factory.keys.len()
                invariant
                    j <= e.factory.keys@.len(),
                    summaries@.len() == j,
                    forall|k: int| 0 <= k < j ==> (#[trigger] summaries@[k])@ == operator_key_summary(e.factory.keys@[k]@),
                decreases e.factory.keys@.len() - j,
            {
                summaries.push(e.factory.keys[j].summary());
                j = j + 1;
            }
            assert(views(summaries@) =~= operator_key_views(e.factory).map_values(|x| operator_key_summary(x)));
            let keys = join_strings(&summaries, ", ");
            v.push(FactoryInfo {
                name: e.factory.name.clone(),
                pack: e.pack_name.clone(),
                factory_type: String::from_str("operator_factory"),
                keys,
            });
            i = i + 1;
        }
        v
    }

    /// Introspection records of the registered preconditioner factories.
    pub fn preconditioner_factory_info(&self) -> (v: Vec<FactoryInfo>)
        ensures
            v@.len() == self.preconditioner_entries().len(),
            forall|k: int| 0 <= k < v@.len() ==> {
                &&& (#[trigger] v@[k]).name@ == self.preconditioner_entries()[k].1.name@
                &&& v@[k].pack@ == self.preconditioner_entries()[k].0
                &&& v@[k].factory_type@ == "preconditioner_factory"@
                &&& v@[k].keys@ == join(preconditioner_key_views(self.preconditioner_entries()[k].1).map_values(
                    |x| preconditioner_key_summary(x)), ", "@)
            },
    {
        let ghost es = self.preconditioner_entries();
        let mut v: Vec<FactoryInfo> = Vec::new();
        let mut i: usize = 0;
        while i < self.preconditioners.len()
            invariant
                es == self.preconditioner_entries(),
                i <= self.preconditioners@.len(),
                v@.len() == i,
                forall|k: int| 0 <= k < i ==> {
                    &&& (#[trigger] v@[k]).name@ == es[k].1.name@
                    &&& v@[k].pack@ == es[k].0
                    &&& v@[k].factory_type@ == "preconditioner_factory"@
                    &&& v@[k].keys@ == join(preconditioner_key_views(es[k].1).map_values(|x| preconditioner_key_summary(x)), ", "@)
                },
            decreases self.preconditioners@.len() - i,
        {
            let e = &self.preconditioners[i];
            assert(es[i as int] == (e.pack_name@, e.factory));
            let mut summaries: Vec<String> = Vec::new();
            let mut j: usize = 0;
            while j < e.factory.keys.len()
                invariant
                    j <= e.factory.keys@.len(),
                    summaries@.len() == j,
                    forall|k: int| 0 <= k < j ==> (#[trigger] summaries@[k])@ == preconditioner_key_summary(e.factory.keys@[k]@),
                decreases e.factory.keys@.len() - j,
            {
                summaries.push(e.factory.keys[j].summary());
                j = j + 1;
            }
            assert(views(summaries@) =~= preconditioner_key_views(e.factory).map_values(|x| preconditioner_key_summary(x)));
            let keys = join_strings(&summaries, ", ");
            v.push(FactoryInfo {
                name: e.factory.name.clone(),
                pack: e.pack_name.clone(),
                factory_type: String::from_str("preconditioner_factory"),
                keys,
            });
            i = i + 1;
        }
        v
    }

    /// Introspection records of the registered solver factories.
    pub fn solver_factory_info(&self) -> (v: Vec<FactoryInfo>)
        ensures
            v@.len() == self.solver_entries().len(),
            forall|k: int| 0 <= k < v@.len() ==> {
                &&& (#[trigger] v@[k]).name@ == self.solver_entries()[k].1.name@
                &&& v@[k].pack@ == self.solver_entries()[k].0
                &&& v@[k].factory_type@ == "solver_factory"@
                &&& v@[k].keys@ == join(solver_key_views(self.solver_entries()[k].1).map_values(
                    |x| solver_key_summary(x)), ", "@)
            },
    {
        let ghost es = self.solver_entries();
        let mut v: Vec<FactoryInfo> = Vec::new();
        let mut i: usize = 0;
        while i < self.solvers.len()
            invariant
                es == self.solver_entries(),
                i <= self.solvers@.len(),
                v@.len() == i,
                forall|k: int| 0 <= k < i ==> {
                    &&& (#[trigger] v@[k]).name@ == es[k].1.name@
                    &&& v@[k].pack@ == es[k].0
                    &&& v@[k].factory_type@ == "solver_factory"@
                    &&& v@[k].keys@ == join(solver_key_views(es[k].1).map_values(|x| solver_key_summary(x)), ", "@)
                },
            decreases self.solvers@.len() - i,
        {
            let e = &self.solvers[i];
            assert(es[i as int] == (e.pack_name@, e.factory));
            let mut summaries: Vec<String> = Vec::new();
            let mut j: usize = 0;
            while j < e.factory.keys.len()
                invariant
                    j <= e.factory.keys@.len(),
                    summaries@.len() == j,
                    forall|k: int| 0 <= k < j ==> (#[trigger] summaries@[k])@ == solver_key_summary(e.factory.keys@[k]@),
                decreases e.factory.keys@.len() - j,
            {
                summaries.push(e.factory.keys[j].summary());
                j = j + 1;
            }
            assert(views(summaries@) =~= solver_key_views(e.factory).map_values(|x| solver_key_summary(x)));
            let keys = join_strings(&summaries, ", ");
            v.push(FactoryInfo {
                name: e.factory.name.clone(),
                pack: e.pack_name.clone(),
                factory_type: String::from_str("solver_factory"),
                keys,
            });
            i = i + 1;
        }
        v
    }

    /// Every registered pack (the packs of the catalog), sorted by name;
    /// packs with equal names keep their catalog order.
    pub fn pack_info(&self) -> (v: Vec<PackInfo>)
        ensures
            v@.map_values(|i: PackInfo| pack_info_view(i)) == listed_pack_infos(),
    {
        let infos = catalog_pack_infos();
        let ghost all = catalog_infos();
        let mut names: Vec<String> = Vec::new();
        let mut i: usize = 0;
        while i < infos.len()
            invariant
                all == catalog_infos(),
                infos@.map_values(|i: PackInfo| pack_info_view(i)) == all,
                i <= infos@.len(),
                names@.len() == i,
                forall|k: int| 0 <= k < i ==> (#[trigger] names@[k])@ == infos@[k].name@,
            decreases infos@.len() - i,
        {
            names.push(infos[i].name.clone());
            i = i + 1;
        }
        let ghost keys = all.map_values(|x: (Seq<char>, Seq<char>, Seq<Seq<char>>)| x.0);
        assert(views(names@) =~= keys) by {
            assert forall|k: int| 0 <= k < names@.len() implies views(names@)[k] == keys[k] by {
                assert(all[k] == pack_info_view(infos@[k]));
            }
        }
        let order = stable_order_by_key(&names);
        let ghost so = sorted_indices(keys, all.len());
        let mut v: Vec<PackInfo> = Vec::new();
        let mut k: usize = 0;
        while k < order.len()
            invariant
                all == catalog_infos(),
                infos@.map_values(|i: PackInfo| pack_info_view(i)) == all,
                order@ == so,
                order@.len() == infos@.len(),
                forall|p: int| 0 <= p < order@.len() ==> #[trigger] order@[p] < infos@.len(),
                k <= order@.len(),
                v@.len() == k,
                forall|p: int| 0 <= p < k ==> pack_info_view(#[trigger] v@[p]) == all[so[p] as int],
            decreases order@.len() - k,
        {
            let info = copy_pack_info(&infos[order[k]]);
            assert(all[order@[k as int] as int] == pack_info_view(infos@[order@[k as int] as int]));
            v.push(info);
            k = k + 1;
        }
        assert(v@.map_values(|i: PackInfo| pack_info_view(i)) =~= so.map_values(|j: usize| all[j as int]));
        v
    }

    /// The names of the registered packs, sorted, each once.
    pub fn pack_names(&self) -> (v: Vec<String>)
        ensures
            views(v@) == dedup(listed_pack_infos().map_values(|x: (Seq<char>, Seq<char>, Seq<Seq<char>>)| x.0)),
    {
        let infos = self.pack_info();
        let ghost sorted = infos@.map_values(|i: PackInfo| i.name@);
        let mut v: Vec<String> = Vec::new();
        let mut k: usize = 0;
        while k < infos.len()
            invariant
                k <= infos@.len(),
                sorted == infos@.map_values(|i: PackInfo| i.name@),
                views(v@) == dedup(sorted.take(k as int)),
            decreases infos@.len() - k,
        {
            assert(sorted.take(k + 1).drop_last() =~= sorted.take(k as int));
            let name = &infos[k].name;
            let skip = v.len() > 0 && v[v.len() - 1] == *name;
            if !skip {
                v.push(name.clone());
                assert(views(v@) =~= dedup(sorted.take(k as int)).push(name@));
            }
            k = k + 1;
        }
        assert(sorted.take(infos@.len() as int) =~= sorted);
        proof {
            let full = listed_pack_infos();
            assert(infos@.map_values(|i: PackInfo| pack_info_view(i)) == full);
            assert forall|p: int| 0 <= p < sorted.len() implies sorted[p] == full.map_values(
                |x: (Seq<char>, Seq<char>, Seq<Seq<char>>)| x.0)[p] by {
                assert(infos@.map_values(|i: PackInfo| pack_info_view(i))[p] == pack_info_view(infos@[p]));
            }
            assert(sorted =~= full.map_values(|x: (Seq<char>, Seq<char>, Seq<Seq<char>>)| x.0));
        }
        v
    }
}

fn make_component_lookup(
    m: &Vec<usize>,
    packs: Vec<String>,
    names: Vec<String>,
    component_type: &str,
    key_description: String,
) -> (r: ComponentLookup)
    requires
        packs@.len() == m@.len(),
        names@.len() == m@.len(),
    ensures
        m@.len() == 0 <==> r is NotFound,
        m@.len() == 1 <==> r is Found,
        r matches ComponentLookup::Found { index, selection } ==> {
            &&& index == m@[0]
            &&& selection.pack_name@ == packs@[0]@
            &&& selection.component_name@ == names@[0]@
            &&& selection.component_type@ == component_type@
        },
        r matches ComponentLookup::Ambiguous(err) ==> {
            &&& err.component_type@ == component_type@
            &&& err.key_description@ == key_description@
            &&& err.candidates@.len() == m@.len()
            &&& forall|k: int| 0 <= k < m@.len() ==> {
                &&& (#[trigger] err.candidates@[k]).pack_name@ == packs@[k]@
                &&& err.candidates@[k].component_name@ == names@[k]@
            }
        },
{
    if m.len() == 0 {
        ComponentLookup::NotFound
    } else if m.len() == 1 {
        ComponentLookup::Found {
            index: m[0],
            selection: ComponentSelection {
                pack_name: packs[0].clone(),
                component_name: names[0].clone(),
                component_type: String::from_str(component_type),
            },
        }
    } else {
        let mut candidates: Vec<ComponentCandidate> = Vec::new();
        let mut k: usize = 0;
        while k < m.len()
            invariant
                packs@.len() == m@.len(),
                names@.len() == m@.len(),
                k <= m@.len(),
                candidates@.len() == k,
                forall|j: int| 0 <= j < k ==> {
                    &&& (#[trigger] candidates@[j]).pack_name@ == packs@[j]@
                    &&& candidates@[j].component_name@ == names@[j]@
                },
            decreases m@.len() - k,
        {
            candidates.push(ComponentCandidate { pack_name: packs[k].clone(), component_name: names[k].clone() });
            k = k + 1;
        }
        ComponentLookup::Ambiguous(AmbiguousComponentError {
            component_type: String::from_str(component_type),
            key_description,
            candidates,
        })
    }
}

impl Default for MethodRegistry {
    /// An empty registry.
    fn default() -> (r: MethodRegistry)
        ensures
            r.builder_entries() == Seq::<(Seq<char>, ProblemBuilder)>::empty(),
            r.operator_entries() == Seq::<(Seq<char>, OperatorFactory)>::empty(),
            r.preconditioner_entries() == Seq::<(Seq<char>, PreconditionerFactory)>::empty(),
            r.solver_entries() == Seq::<(Seq<char>, SolverFactory)>::empty(),
            r.capability_set() == Set::<Capability>::empty(),
            r.current() is None,
    {
        MethodRegistry::new()
    }
}

/// The sequence without adjacent repetitions.
pub open spec fn dedup(s: Seq<Seq<char>>) -> Seq<Seq<char>>
    decreases s.len(),
{
    if s.len() == 0 {
        Seq::empty()
    } else {
        let d = dedup(s.drop_last());
        if d.len() > 0 && d.last() == s.last() {
            d
        } else {
            d.push(s.last())
        }
    }
}

/// What a builder's introspection record holds.
pub open spec fn builder_info_matches(info: BuilderInfo, e: (Seq<char>, ProblemBuilder)) -> bool {
    &&& info.name@ == e.1.name@
    &&& info.pack@ == e.0
    &&& info.equation_type@ == e.1.equation_type@
    &&& info.dimensions@ == dimensions_text(e.1.dimensions@)
    &&& info.backends@ == debug_list(views(e.1.backends@))
}

/// The infos of the packs of the catalog, in catalog order.
fn catalog_pack_infos() -> (v: Vec<PackInfo>)
    ensures
        v@.map_values(|i: PackInfo| pack_info_view(i)) == catalog_infos(),
{
    let packs = iter_packs();
    let ghost pv = packs@.map_values(|p: PackEntry| pack_view(p));
    let mut v: Vec<PackInfo> = Vec::new();
    let mut i: usize = 0;
    while i < packs.len()
        invariant
            pv == packs@.map_values(|p: PackEntry| pack_view(p)),
            pv == catalog_view(),
            i <= packs@.len(),
            v@.len() == i,
            forall|k: int| 0 <= k < i ==> pack_info_view(#[trigger] v@[k]) == catalog_infos()[k],
        decreases packs@.len() - i,
    {
        let p = &packs[i];
        let mut labels: Vec<String> = Vec::new();
        let mut j: usize = 0;
        while j < p.capabilities.len()
            invariant
                j <= p.capabilities@.len(),
                labels@.len() == j,
                forall|k: int| 0 <= k < j ==> #[trigger] labels@[k]@ == label(p.capabilities@[k]),
            decreases p.capabilities@.len() - j,
        {
            labels.push(p.capabilities[j].to_label_string());
            j = j + 1;
        }
        assert(views(labels@) =~= p.capabilities@.map_values(|c: Capability| label(c)));
        assert(pv[i as int] == pack_view(*p));
        v.push(PackInfo { name: p.name.clone(), version: p.version.clone(), capabilities: labels });
        i = i + 1;
    }
    assert(v@.map_values(|i: PackInfo| pack_info_view(i)) =~= catalog_infos());
    v
}

fn copy_pack_info(p: &PackInfo) -> (c: PackInfo)
    ensures
        pack_info_view(c) == pack_info_view(*p),
{
    let mut caps: Vec<String> = Vec::new();
    let mut i: usize = 0;
    while i < p.capabilities.len()
        invariant
            i <= p.capabilities@.len(),
            caps@.len() == i,
            forall|k: int| 0 <= k < i ==> (#[trigger] caps@[k])@ == p.capabilities@[k]@,
        decreases p.capabilities@.len() - i,
    {
        caps.push(p.capabilities[i].clone());
        i = i + 1;
    }
    assert(views(caps@) =~= views(p.capabilities@));
    PackInfo { name: p.name.clone(), version: p.version.clone(), capabilities: caps }
}

/// Append the debug form of a list of dimensions, e.g. `[2, 3]`.
pub fn push_dimensions(out: &mut String, dims: &Vec<u8>)
    ensures
        final(out)@ == old(out)@ + dimensions_text(dims@),
{
    let ghost start = out@;
    let ghost ds = dims@.map_values(|x: u8| decimal(x as nat));
    push_str(out, "[");
    let mut body = String::new();
    let mut i: usize = 0;
    while i < dims.len()
        invariant
            i <= dims@.len(),
            ds == dims@.map_values(|x: u8| decimal(x as nat)),
            body@ == join(ds.take(i as int), ", "@),
        decreases dims@.len() - i,
    {
        assert(ds.take(i + 1).drop_last() =~= ds.take(i as int));
        if i > 0 {
            push_str(&mut body, ", ");
        } else {
            assert(ds.take(1) =~= seq![decimal(dims@[0] as nat)]);
        }
        push_decimal(&mut body, dims[i] as usize);
        if i == 0 {
            assert(body@ =~= decimal(dims@[0] as nat));
        }
        i = i + 1;
    }
    assert(ds.take(dims@.len() as int) =~= ds);
    push_str(out, body.as_str());
    push_str(out, "]");
}

impl AmbiguousBuilderError {
    /// The message this error displays.
    pub fn message(&self) -> (s: String)
        ensures
            s@ == ambiguous_builder_message(*self),
    {
        let mut s = String::new();
        push_str(&mut s, "ambiguous builder selection: ");
        push_decimal(&mut s, self.candidates.len());
        push_str(&mut s, " builders match equation='");
        push_str(&mut s, self.equation_type.as_str());
        push_str(&mut s, "', dim=");
        push_decimal(&mut s, self.dimension as usize);
        push_str(&mut s, ", backend='");
        push_str(&mut s, self.backend.as_str());
        push_str(&mut s, "': ");
        let mut texts: Vec<String> = Vec::new();
        let mut i: usize = 0;
        while i < self.candidates.len()
            invariant
                i <= self.candidates@.len(),
                texts@.len() == i,
                forall|k: int| 0 <= k < i ==> (#[trigger] texts@[k])@ == candidate_text(
                    self.candidates@[k].pack_name@, self.candidates@[k].builder_name@),
            decreases self.candidates@.len() - i,
        {
            let mut t = String::new();
            push_str(&mut t, self.candidates[i].pack_name.as_str());
            push_str(&mut t, "::");
            push_str(&mut t, self.candidates[i].builder_name.as_str());
            texts.push(t);
            i = i + 1;
        }
        assert(views(texts@) =~= self.candidates@.map_values(
            |c: BuilderCandidate| candidate_text(c.pack_name@, c.builder_name@)));
        let joined = join_strings(&texts, ", ");
        push_str(&mut s, joined.as_str());
        s
    }
}

impl AmbiguousComponentError {
    /// The message this error displays.
    pub fn message(&self) -> (s: String)
        ensures
            s@ == ambiguous_component_message(*self),
    {
        let mut s = String::new();
        push_str(&mut s, "ambiguous ");
        push_str(&mut s, self.component_type.as_str());
        push_str(&mut s, " selection: ");
        push_decimal(&mut s, self.candidates.len());
        push_str(&mut s, " factories match ");
        push_str(&mut s, self.key_description.as_str());
        push_str(&mut s, ": ");
        let mut texts: Vec<String> = Vec::new();
        let mut i: usize = 0;
        while i < self.candidates.len()
            invariant
                i <= self.candidates@.len(),
                texts@.len() == i,
                forall|k: int| 0 <= k < i ==> (#[trigger] texts@[k])@ == candidate_text(
                    self.candidates@[k].pack_name@, self.candidates@[k].component_name@),
            decreases self.candidates@.len() - i,
        {
            let mut t = String::new();
            push_str(&mut t, self.candidates[i].pack_name.as_str());
            push_str(&mut t, "::");
            push_str(&mut t, self.candidates[i].component_name.as_str());
            texts.push(t);
            i = i + 1;
        }
        assert(views(texts@) =~= self.candidates@.map_values(
            |c: ComponentCandidate| candidate_text(c.pack_name@, c.component_name@)));
        let joined = join_strings(&texts, ", ");
        push_str(&mut s, joined.as_str());
        s
    }
}

} // verus!
