//! Conformance checks for method packs.
//!
//! For a named pack the checks verify that:
//! 1. the pack is among the registered packs;
//! 2. its capabilities are deterministic;
//! 3. its capabilities are non-empty;
//! 4. its version is non-empty;
//! 5. it registers builders, or at least component factories;
//! 6. no two of its builders share a key;
//! 7-9. which operator, preconditioner and solver factories it registers;
//! 10-11. no two of its operator or solver factories share keys;
//! 12. a physics pack registers no single-field solver factory.

use vstd::prelude::*;
use crate::capability::Capability;
use crate::components::{OperatorFactory, PreconditionerFactory, ProblemBuilder, SolverFactory};
use crate::keys::{bool_text, operator_key_summary, solver_key_summary, OperatorKeyView, PreconditionerKeyView, SolverKeyView};
use crate::pack::PackEntry;
use crate::packs::{catalog_view, iter_packs, pack_view, PackView};
use crate::registry::{dimensions_text, push_dimensions};
use crate::text::{debug_list, decimal, join, join_strings, push_debug_list, push_decimal, push_str, str_eq, views};

verus! {

/// A single conformance check result.
#[derive(Debug, Clone)]
pub struct CheckResult {
    pub name: String,
    pub passed: bool,
    pub detail: String,
}

/// Aggregate result of all conformance checks.
#[derive(Debug, Clone)]
pub struct ConformanceReport {
    pub pack_name: String,
    pub checks: Vec<CheckResult>,
}

/// A check as values: name, outcome, detail.
pub type CheckView = (Seq<char>, bool, Seq<char>);

/// The values a check result holds.
pub open spec fn check_view(c: CheckResult) -> CheckView {
    (c.name@, c.passed, c.detail@)
}

/// The values of a report's checks.
pub open spec fn report_checks(r: ConformanceReport) -> Seq<CheckView> {
    r.checks@.map_values(|c: CheckResult| check_view(c))
}

// ---------------------------------------------------------------------------
// What the checks look at
// ---------------------------------------------------------------------------

/// A builder as values: name, equation type, dimensions, backends.
pub type BuilderView = (Seq<char>, Seq<char>, Seq<u8>, Seq<Seq<char>>);

/// The builders of the packs named `n`, in pack order.
pub open spec fn builders_of(ps: Seq<PackView>, n: Seq<char>) -> Seq<BuilderView>
    decreases ps.len(),
{
    if ps.len() == 0 {
        Seq::empty()
    } else {
        builders_of(ps.drop_last(), n) + if ps.last().0 == n { ps.last().3 } else { Seq::empty() }
    }
}

/// The operator factories of the packs named `n`.
pub open spec fn operators_of(ps: Seq<PackView>, n: Seq<char>) -> Seq<(Seq<char>, Seq<OperatorKeyView>, Seq<Capability>, Seq<Capability>)>
    decreases ps.len(),
{
    if ps.len() == 0 {
        Seq::empty()
    } else {
        operators_of(ps.drop_last(), n) + if ps.last().0 == n { ps.last().4 } else { Seq::empty() }
    }
}

/// The preconditioner factories of the packs named `n`.
pub open spec fn preconditioners_of(ps: Seq<PackView>, n: Seq<char>) -> Seq<(Seq<char>, Seq<PreconditionerKeyView>, Seq<Capability>, Seq<Capability>)>
    decreases ps.len(),
{
    if ps.len() == 0 {
        Seq::empty()
    } else {
        preconditioners_of(ps.drop_last(), n) + if ps.last().0 == n { ps.last().5 } else { Seq::empty() }
    }
}

/// The solver factories of the packs named `n`.
pub open spec fn solvers_of(ps: Seq<PackView>, n: Seq<char>) -> Seq<(Seq<char>, Seq<SolverKeyView>, Seq<Capability>, Seq<Capability>)>
    decreases ps.len(),
{
    if ps.len() == 0 {
        Seq::empty()
    } else {
        solvers_of(ps.drop_last(), n) + if ps.last().0 == n { ps.last().6 } else { Seq::empty() }
    }
}

/// The position of the first pack named `n`, from position `i` on.
pub open spec fn first_pack(ps: Seq<PackView>, n: Seq<char>, i: int) -> int
    decreases ps.len() - i,
{
    if i < 0 || i >= ps.len() {
        ps.len() as int
    } else if ps[i].0 == n {
        i
    } else {
        first_pack(ps, n, i + 1)
    }
}

/// The key under which duplicate builders are detected:
/// `equation|[dims]|["backends"]`.
pub open spec fn builder_key(b: BuilderView) -> Seq<char> {
    b.1 + "|"@ + dimensions_text(b.2) + "|"@ + debug_list(b.3)
}

/// The keys text of an operator factory.
pub open spec fn operator_keys_text(keys: Seq<OperatorKeyView>) -> Seq<char> {
    join(keys.map_values(|k: OperatorKeyView| operator_key_summary(k)), ", "@)
}

/// The keys text of a solver factory.
pub open spec fn solver_keys_text(keys: Seq<SolverKeyView>) -> Seq<char> {
    join(keys.map_values(|k: SolverKeyView| solver_key_summary(k)), ", "@)
}

/// Every occurrence of a value that already occurred earlier, in order.
pub open spec fn duplicates(s: Seq<Seq<char>>) -> Seq<Seq<char>>
    decreases s.len(),
{
    if s.len() == 0 {
        Seq::empty()
    } else {
        duplicates(s.drop_last()) + if s.drop_last().contains(s.last()) { seq![s.last()] } else { Seq::empty() }
    }
}

/// Whether `needle` occurs in `hay` as a contiguous piece.
pub open spec fn contains_text(hay: Seq<char>, needle: Seq<char>) -> bool {
    exists|i: int| 0 <= i && i + needle.len() <= hay.len() && #[trigger] hay.subrange(i, i + needle.len()) == needle
}

/// The names of the solver factories whose keys text mentions
/// "single_field".
pub open spec fn single_field_solver_names(slvs: Seq<(Seq<char>, Seq<SolverKeyView>, Seq<Capability>, Seq<Capability>)>) -> Seq<Seq<char>>
    decreases slvs.len(),
{
    if slvs.len() == 0 {
        Seq::empty()
    } else {
        single_field_solver_names(slvs.drop_last()) + if contains_text(solver_keys_text(slvs.last().1), "single_field"@) {
            seq![slvs.last().0]
        } else {
            Seq::empty()
        }
    }
}

/// "{count} {what} registered" followed by ": names" when there are some.
pub open spec fn factories_detail(count: nat, what: Seq<char>, names: Seq<Seq<char>>) -> Seq<char> {
    decimal(count) + " "@ + what + " registered"@ + if count == 0 { Seq::empty() } else { ": "@ + join(names, ", "@) }
}

/// A factory as values: name, keys, provided and required capabilities.
pub type FactoryView<K> = (Seq<char>, Seq<K>, Seq<Capability>, Seq<Capability>);

/// The component checks (5 to 12) over the components of the pack named `n`.
pub open spec fn component_checks(
    bs: Seq<BuilderView>,
    ops: Seq<FactoryView<OperatorKeyView>>,
    pcs: Seq<FactoryView<PreconditionerKeyView>>,
    slvs: Seq<FactoryView<SolverKeyView>>,
    n: Seq<char>,
) -> Seq<CheckView> {
    let has_factories = ops.len() > 0 || pcs.len() > 0 || slvs.len() > 0;
    let bdups = duplicates(bs.map_values(|b: BuilderView| builder_key(b)));
    let odups = duplicates(ops.map_values(|f: FactoryView<OperatorKeyView>| operator_keys_text(f.1)));
    let sdups = duplicates(slvs.map_values(|f: FactoryView<SolverKeyView>| solver_keys_text(f.1)));
    let sf = single_field_solver_names(slvs);
    let common = seq![
        (
            "builders_registered"@,
            bs.len() > 0 || has_factories,
            if bs.len() > 0 {
                decimal(bs.len()) + " builder(s) registered: "@ + join(bs.map_values(|b: BuilderView| b.0), ", "@)
            } else {
                "no builders registered by this pack"@
            },
        ),
        (
            "no_duplicate_keys"@,
            bdups.len() == 0,
            if bdups.len() == 0 { "no duplicate builder keys within pack"@ } else { "duplicate builder keys: "@ + debug_list(bdups) },
        ),
        (
            "operator_factories"@,
            true,
            factories_detail(ops.len(), "operator factory(ies)"@, ops.map_values(|f: FactoryView<OperatorKeyView>| f.0)),
        ),
        (
            "preconditioner_factories"@,
            true,
            factories_detail(pcs.len(), "preconditioner factory(ies)"@, pcs.map_values(|f: FactoryView<PreconditionerKeyView>| f.0)),
        ),
        (
            "solver_factories"@,
            true,
            factories_detail(slvs.len(), "solver factory(ies)"@, slvs.map_values(|f: FactoryView<SolverKeyView>| f.0)),
        ),
        (
            "no_duplicate_operator_factory_keys"@,
            odups.len() == 0,
            if odups.len() == 0 { "no duplicate operator factory keys"@ } else { "duplicate operator factory keys: "@ + debug_list(odups) },
        ),
        (
            "no_duplicate_solver_factory_keys"@,
            sdups.len() == 0,
            if sdups.len() == 0 { "no duplicate solver factory keys"@ } else { "duplicate solver factory keys: "@ + debug_list(sdups) },
        ),
    ];
    if n == "linear_solvers"@ {
        common
    } else {
        common.push((
            "no_single_field_solver_in_physics_pack"@,
            sf.len() == 0,
            if sf.len() == 0 {
                "physics pack correctly delegates single_field solvers to solver packs"@
            } else {
                "physics pack registers single_field solver factories (move to a solver pack): "@ + join(sf, ", "@)
            },
        ))
    }
}

/// Whether some pack is named `n`.
pub open spec fn pack_found(ps: Seq<PackView>, n: Seq<char>) -> bool {
    exists|i: int| 0 <= i < ps.len() && #[trigger] ps[i].0 == n
}

/// The checks run for the pack named `n` among the packs `ps`.
pub open spec fn expected_checks(ps: Seq<PackView>, n: Seq<char>) -> Seq<CheckView> {
    if !pack_found(ps, n) {
        seq![(
            "discovery"@,
            false,
            "pack '"@ + n + "' NOT found; available: "@ + debug_list(ps.map_values(|p: PackView| p.0)),
        )]
    } else {
        let entry = ps[first_pack(ps, n, 0)];
        let ncaps = entry.2.len();
        seq![
            ("discovery"@, true, "pack '"@ + n + "' found via inventory"@),
            ("capabilities_deterministic"@, true, decimal(ncaps) + " capabilities returned consistently"@),
            (
                "capabilities_nonempty"@,
                ncaps > 0,
                if ncaps > 0 { "pack declares "@ + decimal(ncaps) + " capabilities"@ } else { "pack declares zero capabilities"@ },
            ),
            (
                "version_nonempty"@,
                entry.1.len() > 0,
                if entry.1.len() > 0 { "version = '"@ + entry.1 + "'"@ } else { "version is empty"@ },
            ),
        ] + component_checks(builders_of(ps, n), operators_of(ps, n), preconditioners_of(ps, n), solvers_of(ps, n), n)
    }
}

/// Whether every check passed.
pub open spec fn all_checks_pass(cs: Seq<CheckView>) -> bool {
    forall|i: int| 0 <= i < cs.len() ==> (#[trigger] cs[i]).1
}

/// The number of failed checks.
pub open spec fn failure_count(cs: Seq<CheckView>) -> nat
    decreases cs.len(),
{
    if cs.len() == 0 {
        0
    } else {
        failure_count(cs.drop_last()) + if cs.last().1 { 0nat } else { 1nat }
    }
}

/// One line of a rendered report.
pub open spec fn check_line(c: CheckView) -> Seq<char> {
    "  ["@ + (if c.1 { "PASS"@ } else { "FAIL"@ }) + "] "@ + c.0 + ": "@ + c.2 + "\n"@
}

/// The lines of the checks of a rendered report.
pub open spec fn check_lines(cs: Seq<CheckView>) -> Seq<char>
    decreases cs.len(),
{
    if cs.len() == 0 {
        Seq::empty()
    } else {
        check_lines(cs.drop_last()) + check_line(cs.last())
    }
}

/// A rendered report.
pub open spec fn report_text(pack_name: Seq<char>, cs: Seq<CheckView>) -> Seq<char> {
    "Conformance report for pack '"@ + pack_name + "':\n"@ + check_lines(cs) + if all_checks_pass(cs) {
        "All checks passed.\n"@
    } else {
        decimal(failure_count(cs)) + " check(s) failed.\n"@
    }
}

// ---------------------------------------------------------------------------
// Building the checks
// ---------------------------------------------------------------------------

fn check(name: &str, passed: bool, detail: String) -> (c: CheckResult)
    ensures
        check_view(c) == (name@, passed, detail@),
{
    CheckResult { name: String::from_str(name), passed, detail }
}

fn text(s: &str) -> (r: String)
    ensures
        r@ == s@,
{
    String::from_str(s)
}

fn builder_key_string(b: &ProblemBuilder) -> (s: String)
    ensures
        s@ == builder_key((b.name@, b.equation_type@, b.dimensions@, views(b.backends@))),
{
    let mut s = String::new();
    push_str(&mut s, b.equation_type.as_str());
    push_str(&mut s, "|");
    push_dimensions(&mut s, &b.dimensions);
    push_str(&mut s, "|");
    push_debug_list(&mut s, &b.backends);
    s
}

fn operator_keys_string(f: &OperatorFactory) -> (s: String)
    ensures
        s@ == operator_keys_text(f.keys@.map_values(|k: crate::keys::OperatorKey| k@)),
{
    let mut summaries: Vec<String> = Vec::new();
    let mut j: usize = 0;
    while j < f.keys.len()
        invariant
            j <= f.keys@.len(),
            summaries@.len() == j,
            forall|k: int| 0 <= k < j ==> (#[trigger] summaries@[k])@ == operator_key_summary(f.keys@[k]@),
        decreases f.keys@.len() - j,
    {
        summaries.push(f.keys[j].summary());
        j = j + 1;
    }
    assert(views(summaries@) =~= f.keys@.map_values(|k: crate::keys::OperatorKey| k@).map_values(
        |k: OperatorKeyView| operator_key_summary(k)));
    join_strings(&summaries, ", ")
}

fn solver_keys_string(f: &SolverFactory) -> (s: String)
    ensures
        s@ == solver_keys_text(f.keys@.map_values(|k: crate::keys::SolverKey| k@)),
{
    let mut summaries: Vec<String> = Vec::new();
    let mut j: usize = 0;
    while j < f.keys.len()
        invariant
            j <= f.keys@.len(),
            summaries@.len() == j,
            forall|k: int| 0 <= k < j ==> (#[trigger] summaries@[k])@ == solver_key_summary(f.keys@[k]@),
        decreases f.keys@.len() - j,
    {
        summaries.push(f.keys[j].summary());
        j = j + 1;
    }
    assert(views(summaries@) =~= f.keys@.map_values(|k: crate::keys::SolverKey| k@).map_values(
        |k: SolverKeyView| solver_key_summary(k)));
    join_strings(&summaries, ", ")
}

/// Every occurrence of a value that already occurred earlier, in order.
fn find_duplicates(keys: &Vec<String>) -> (d: Vec<String>)
    ensures
        views(d@) == duplicates(views(keys@)),
{
    let ghost ks = views(keys@);
    let mut d: Vec<String> = Vec::new();
    let mut i: usize = 0;
    while i < keys.len()
        invariant
            ks == views(keys@),
            i <= keys@.len(),
            views(d@) == duplicates(ks.take(i as int)),
        decreases keys@.len() - i,
    {
        let mut seen = false;
        let mut j: usize = 0;
        while j < i
            invariant
                ks == views(keys@),
                j <= i < keys@.len(),
                seen == exists|q: int| 0 <= q < j && #[trigger] ks[q] == ks[i as int],
            decreases i - j,
        {
            let same = str_eq(keys[j].as_str(), keys[i].as_str());
            proof {
                assert(ks[j as int] == keys@[j as int]@);
                assert(ks[i as int] == keys@[i as int]@);
            }
            if same {
                seen = true;
            }
            proof {
                if same {
                    assert(ks[j as int] == ks[i as int]);
                }
                if exists|q: int| 0 <= q < j + 1 && #[trigger] ks[q] == ks[i as int] {
                    let q = choose|q: int| 0 <= q < j + 1 && #[trigger] ks[q] == ks[i as int];
                    if q == j {
                        assert(same);
                    }
                }
            }
            j = j + 1;
        }
        proof {
            let t = ks.take(i + 1);
            assert(t.drop_last() =~= ks.take(i as int));
            assert(t.last() == ks[i as int]);
            if seen {
                let q = choose|q: int| 0 <= q < i && #[trigger] ks[q] == ks[i as int];
                assert(ks.take(i as int)[q] == ks[i as int]);
            } else {
                assert(!ks.take(i as int).contains(ks[i as int]));
            }
        }
        if seen {
            d.push(keys[i].clone());
            assert(views(d@) =~= duplicates(ks.take(i + 1)));
        } else {
            assert(views(d@) =~= duplicates(ks.take(i + 1)));
        }
        i = i + 1;
    }
    assert(ks.take(keys@.len() as int) =~= ks);
    d
}

/// Whether `needle` occurs in `hay`.
pub fn text_contains(hay: &str, needle: &str) -> (b: bool)
    ensures
        b == contains_text(hay@, needle@),
{
    let nh = hay.unicode_len();
    let nn = needle.unicode_len();
    if nn > nh {
        return false;
    }
    if nn == 0 {
        let ghost w: int = 0;
        assert(hay@.subrange(w, w + needle@.len()) =~= needle@);
        return true;
    }
    let last = nh - nn;
    let mut i: usize = 0;
    while i <= last
        invariant
            nh == hay@.len(),
            nn == needle@.len(),
            1 <= nn <= nh,
            last == nh - nn,
            i <= last + 1,
            forall|q: int| 0 <= q < i ==> #[trigger] hay@.subrange(q, q + nn) != needle@,
        decreases last + 1 - i,
    {
        let piece = hay.substring_char(i, i + nn);
        if str_eq(piece, needle) {
            let ghost w: int = i as int;
            assert(hay@.subrange(w, w + needle@.len()) == needle@);
            return true;
        }
        i = i + 1;
    }
    proof {
        assert forall|q: int| 0 <= q && q + needle@.len() <= hay@.len()
            implies #[trigger] hay@.subrange(q, q + needle@.len()) != needle@ by {
            assert(q < i);
        }
    }
    false
}

/// The texts gathered from the components of the packs with one name.
struct Gathered {
    builder_names: Vec<String>,
    builder_keys: Vec<String>,
    op_names: Vec<String>,
    op_keys: Vec<String>,
    pc_names: Vec<String>,
    slv_names: Vec<String>,
    slv_keys: Vec<String>,
}

spec fn gathered_from(
    g: Gathered,
    bs: Seq<BuilderView>,
    ops: Seq<FactoryView<OperatorKeyView>>,
    pcs: Seq<FactoryView<PreconditionerKeyView>>,
    slvs: Seq<FactoryView<SolverKeyView>>,
) -> bool {
    &&& views(g.builder_names@) == bs.map_values(|b: BuilderView| b.0)
    &&& views(g.builder_keys@) == bs.map_values(|b: BuilderView| builder_key(b))
    &&& views(g.op_names@) == ops.map_values(|f: FactoryView<OperatorKeyView>| f.0)
    &&& views(g.op_keys@) == ops.map_values(|f: FactoryView<OperatorKeyView>| operator_keys_text(f.1))
    &&& views(g.pc_names@) == pcs.map_values(|f: FactoryView<PreconditionerKeyView>| f.0)
    &&& views(g.slv_names@) == slvs.map_values(|f: FactoryView<SolverKeyView>| f.0)
    &&& views(g.slv_keys@) == slvs.map_values(|f: FactoryView<SolverKeyView>| solver_keys_text(f.1))
}

fn gather_builders(p: &PackEntry, names: &mut Vec<String>, keys: &mut Vec<String>)
    ensures
        views(final(names)@) == views(old(names)@) + pack_view(*p).3.map_values(|b: BuilderView| b.0),
        views(final(keys)@) == views(old(keys)@) + pack_view(*p).3.map_values(|b: BuilderView| builder_key(b)),
{
    let ghost pv = pack_view(*p);
    let ghost n0 = names@;
    let ghost k0 = keys@;
    let mut j: usize = 0;
    while j < p.builders.len()
        invariant
            j <= p.builders@.len(),
            pv == pack_view(*p),
            views(names@) == views(n0) + pv.3.take(j as int).map_values(|b: BuilderView| b.0),
            views(keys@) == views(k0) + pv.3.take(j as int).map_values(|b: BuilderView| builder_key(b)),
        decreases p.builders@.len() - j,
    {
        let b = &p.builders[j];
        let ghost old_names = names@;
        let ghost old_keys = keys@;
        let bname = b.name.clone();
        let bkey = builder_key_string(b);
        names.push(bname);
        keys.push(bkey);
        proof {
            assert(pv.3[j as int] == (b.name@, b.equation_type@, b.dimensions@, views(b.backends@)));
            assert(views(names@) =~= views(old_names).push(b.name@));
            assert(views(keys@) =~= views(old_keys).push(bkey@));
            assert(pv.3.take(j + 1) =~= pv.3.take(j as int).push(pv.3[j as int]));
            assert(views(names@) =~= views(n0) + pv.3.take(j + 1).map_values(|b: BuilderView| b.0));
            assert(views(keys@) =~= views(k0) + pv.3.take(j + 1).map_values(|b: BuilderView| builder_key(b)));
        }
        j = j + 1;
    }
    assert(pv.3.take(p.builders@.len() as int) =~= pv.3);
}

fn gather_operators(p: &PackEntry, names: &mut Vec<String>, keys: &mut Vec<String>)
    ensures
        views(final(names)@) == views(old(names)@) + pack_view(*p).4.map_values(|f: FactoryView<OperatorKeyView>| f.0),
        views(final(keys)@) == views(old(keys)@) + pack_view(*p).4.map_values(
            |f: FactoryView<OperatorKeyView>| operator_keys_text(f.1)),
{
    let ghost pv = pack_view(*p);
    let ghost n0 = names@;
    let ghost k0 = keys@;
    let mut j: usize = 0;
    while j < p.operator_factories.len()
        invariant
            j <= p.operator_factories@.len(),
            pv == pack_view(*p),
            views(names@) == views(n0) + pv.4.take(j as int).map_values(|f: FactoryView<OperatorKeyView>| f.0),
            views(keys@) == views(k0) + pv.4.take(j as int).map_values(
                |f: FactoryView<OperatorKeyView>| operator_keys_text(f.1)),
        decreases p.operator_factories@.len() - j,
    {
        let f = &p.operator_factories[j];
        let ghost old_names = names@;
        let ghost old_keys = keys@;
        let fname = f.name.clone();
        let fkey = operator_keys_string(f);
        names.push(fname);
        keys.push(fkey);
        proof {
            assert(pv.4[j as int] == crate::packs::operator_factory_view(*f));
            assert(views(names@) =~= views(old_names).push(f.name@));
            assert(views(keys@) =~= views(old_keys).push(fkey@));
            assert(pv.4.take(j + 1) =~= pv.4.take(j as int).push(pv.4[j as int]));
            assert(views(names@) =~= views(n0) + pv.4.take(j + 1).map_values(|f: FactoryView<OperatorKeyView>| f.0));
            assert(views(keys@) =~= views(k0) + pv.4.take(j + 1).map_values(
                |f: FactoryView<OperatorKeyView>| operator_keys_text(f.1)));
        }
        j = j + 1;
    }
    assert(pv.4.take(p.operator_factories@.len() as int) =~= pv.4);
}

fn gather_preconditioners(p: &PackEntry, names: &mut Vec<String>)
    ensures
        views(final(names)@) == views(old(names)@) + pack_view(*p).5.map_values(
            |f: FactoryView<PreconditionerKeyView>| f.0),
{
    let ghost pv = pack_view(*p);
    let ghost n0 = names@;
    let mut j: usize = 0;
    while j < p.preconditioner_factories.len()
        invariant
            j <= p.preconditioner_factories@.len(),
            pv == pack_view(*p),
            views(names@) == views(n0) + pv.5.take(j as int).map_values(|f: FactoryView<PreconditionerKeyView>| f.0),
        decreases p.preconditioner_factories@.len() - j,
    {
        let f = &p.preconditioner_factories[j];
        let ghost old_names = names@;
        let fname = f.name.clone();
        names.push(fname);
        proof {
            assert(pv.5[j as int] == crate::packs::preconditioner_factory_view(*f));
            assert(views(names@) =~= views(old_names).push(f.name@));
            assert(pv.5.take(j + 1) =~= pv.5.take(j as int).push(pv.5[j as int]));
            assert(views(names@) =~= views(n0) + pv.5.take(j + 1).map_values(|f: FactoryView<PreconditionerKeyView>| f.0));
        }
        j = j + 1;
    }
    assert(pv.5.take(p.preconditioner_factories@.len() as int) =~= pv.5);
}

fn gather_solvers(p: &PackEntry, names: &mut Vec<String>, keys: &mut Vec<String>)
    ensures
        views(final(names)@) == views(old(names)@) + pack_view(*p).6.map_values(|f: FactoryView<SolverKeyView>| f.0),
        views(final(keys)@) == views(old(keys)@) + pack_view(*p).6.map_values(
            |f: FactoryView<SolverKeyView>| solver_keys_text(f.1)),
{
    let ghost pv = pack_view(*p);
    let ghost n0 = names@;
    let ghost k0 = keys@;
    let mut j: usize = 0;
    while j < p.solver_factories.len()
        invariant
            j <= p.solver_factories@.len(),
            pv == pack_view(*p),
            views(names@) == views(n0) + pv.6.take(j as int).map_values(|f: FactoryView<SolverKeyView>| f.0),
            views(keys@) == views(k0) + pv.6.take(j as int).map_values(
                |f: FactoryView<SolverKeyView>| solver_keys_text(f.1)),
        decreases p.solver_factories@.len() - j,
    {
        let f = &p.solver_factories[j];
        let ghost old_names = names@;
        let ghost old_keys = keys@;
        let fname = f.name.clone();
        let fkey = solver_keys_string(f);
        names.push(fname);
        keys.push(fkey);
        proof {
            assert(pv.6[j as int] == crate::packs::solver_factory_view(*f));
            assert(views(names@) =~= views(old_names).push(f.name@));
            assert(views(keys@) =~= views(old_keys).push(fkey@));
            assert(pv.6.take(j + 1) =~= pv.6.take(j as int).push(pv.6[j as int]));
            assert(views(names@) =~= views(n0) + pv.6.take(j + 1).map_values(|f: FactoryView<SolverKeyView>| f.0));
            assert(views(keys@) =~= views(k0) + pv.6.take(j + 1).map_values(
                |f: FactoryView<SolverKeyView>| solver_keys_text(f.1)));
        }
        j = j + 1;
    }
    assert(pv.6.take(p.solver_factories@.len() as int) =~= pv.6);
}

fn gather(packs: &Vec<PackEntry>, pack_name: &str) -> (g: Gathered)
    ensures
        ({
            let ps = packs@.map_values(|p: PackEntry| pack_view(p));
            gathered_from(g, builders_of(ps, pack_name@), operators_of(ps, pack_name@),
                preconditioners_of(ps, pack_name@), solvers_of(ps, pack_name@))
        }),
{
    let ghost ps = packs@.map_values(|p: PackEntry| pack_view(p));
    let ghost n = pack_name@;
    let mut g = Gathered {
        builder_names: Vec::new(),
        builder_keys: Vec::new(),
        op_names: Vec::new(),
        op_keys: Vec::new(),
        pc_names: Vec::new(),
        slv_names: Vec::new(),
        slv_keys: Vec::new(),
    };
    let np = packs.len();
    let mut i: usize = 0;
    proof {
        assert(views(g.builder_names@) =~= builders_of(ps.take(0), n).map_values(|b: BuilderView| b.0));
        assert(views(g.builder_keys@) =~= builders_of(ps.take(0), n).map_values(|b: BuilderView| builder_key(b)));
        assert(views(g.op_names@) =~= operators_of(ps.take(0), n).map_values(|f: FactoryView<OperatorKeyView>| f.0));
        assert(views(g.op_keys@) =~= operators_of(ps.take(0), n).map_values(|f: FactoryView<OperatorKeyView>| operator_keys_text(f.1)));
        assert(views(g.pc_names@) =~= preconditioners_of(ps.take(0), n).map_values(|f: FactoryView<PreconditionerKeyView>| f.0));
        assert(views(g.slv_names@) =~= solvers_of(ps.take(0), n).map_values(|f: FactoryView<SolverKeyView>| f.0));
        assert(views(g.slv_keys@) =~= solvers_of(ps.take(0), n).map_values(|f: FactoryView<SolverKeyView>| solver_keys_text(f.1)));
    }
    while i < np
        invariant
            np == packs@.len(),
            ps == packs@.map_values(|p: PackEntry| pack_view(p)),
            n == pack_name@,
            i <= np,
            gathered_from(g, builders_of(ps.take(i as int), n), operators_of(ps.take(i as int), n),
                preconditioners_of(ps.take(i as int), n), solvers_of(ps.take(i as int), n)),
        decreases np - i,
    {
        let p = &packs[i];
        let ghost pv = pack_view(*p);
        proof {
            assert(ps.take(i + 1).drop_last() =~= ps.take(i as int));
            assert(ps.take(i + 1).last() == pv);
        }
        if str_eq(p.name.as_str(), pack_name) {
            gather_builders(p, &mut g.builder_names, &mut g.builder_keys);
            gather_operators(p, &mut g.op_names, &mut g.op_keys);
            gather_preconditioners(p, &mut g.pc_names);
            gather_solvers(p, &mut g.slv_names, &mut g.slv_keys);
        }
        proof {
            let t = ps.take(i + 1);
            assert(builders_of(t, n) == builders_of(ps.take(i as int), n) + if pv.0 == n { pv.3 } else { Seq::empty() });
            assert(operators_of(t, n) == operators_of(ps.take(i as int), n) + if pv.0 == n { pv.4 } else { Seq::empty() });
            assert(preconditioners_of(t, n) == preconditioners_of(ps.take(i as int), n) + if pv.0 == n { pv.5 } else { Seq::empty() });
            assert(solvers_of(t, n) == solvers_of(ps.take(i as int), n) + if pv.0 == n { pv.6 } else { Seq::empty() });
            assert(views(g.builder_names@) =~= builders_of(t, n).map_values(|b: BuilderView| b.0));
            assert(views(g.builder_keys@) =~= builders_of(t, n).map_values(|b: BuilderView| builder_key(b)));
            assert(views(g.op_names@) =~= operators_of(t, n).map_values(|f: FactoryView<OperatorKeyView>| f.0));
            assert(views(g.op_keys@) =~= operators_of(t, n).map_values(|f: FactoryView<OperatorKeyView>| operator_keys_text(f.1)));
            assert(views(g.pc_names@) =~= preconditioners_of(t, n).map_values(|f: FactoryView<PreconditionerKeyView>| f.0));
            assert(views(g.slv_names@) =~= solvers_of(t, n).map_values(|f: FactoryView<SolverKeyView>| f.0));
            assert(views(g.slv_keys@) =~= solvers_of(t, n).map_values(|f: FactoryView<SolverKeyView>| solver_keys_text(f.1)));
        }
        i = i + 1;
    }
    assert(ps.take(np as int) =~= ps);
    g
}

fn single_field_solvers(names: &Vec<String>, keys: &Vec<String>, slvs: Ghost<Seq<FactoryView<SolverKeyView>>>) -> (sf: Vec<String>)
    requires
        views(names@) == slvs@.map_values(|f: FactoryView<SolverKeyView>| f.0),
        views(keys@) == slvs@.map_values(|f: FactoryView<SolverKeyView>| solver_keys_text(f.1)),
    ensures
        views(sf@) == single_field_solver_names(slvs@),
{
    let ghost s = slvs@;
    proof {
        assert(views(names@).len() == names@.len());
        assert(views(keys@).len() == keys@.len());
    }
    let mut sf: Vec<String> = Vec::new();
    let mut k: usize = 0;
    while k < names.len()
        invariant
            s == slvs@,
            names@.len() == s.len(),
            keys@.len() == s.len(),
            views(names@) == s.map_values(|f: FactoryView<SolverKeyView>| f.0),
            views(keys@) == s.map_values(|f: FactoryView<SolverKeyView>| solver_keys_text(f.1)),
            k <= names@.len(),
            views(sf@) == single_field_solver_names(s.take(k as int)),
        decreases names@.len() - k,
    {
        proof {
            assert(s.take(k + 1).drop_last() =~= s.take(k as int));
            assert(s.take(k + 1).last() == s[k as int]);
            assert(views(keys@)[k as int] == keys@[k as int]@);
            assert(views(names@)[k as int] == names@[k as int]@);
        }
        let ghost old_sf = sf@;
        if text_contains(keys[k].as_str(), "single_field") {
            let nm = names[k].clone();
            sf.push(nm);
            assert(views(sf@) =~= views(old_sf).push(names@[k as int]@));
        }
        assert(views(sf@) =~= single_field_solver_names(s.take(k + 1)));
        k = k + 1;
    }
    assert(s.take(names@.len() as int) =~= s);
    sf
}

fn push_check(checks: &mut Vec<CheckResult>, name: &str, passed: bool, detail: String)
    ensures
        final(checks)@.map_values(|c: CheckResult| check_view(c))
            == old(checks)@.map_values(|c: CheckResult| check_view(c)).push((name@, passed, detail@)),
{
    let c = check(name, passed, detail);
    checks.push(c);
    assert(checks@.map_values(|c: CheckResult| check_view(c))
        =~= old(checks)@.map_values(|c: CheckResult| check_view(c)).push((name@, passed, c.detail@)));
}

fn component_check_results(
    g: &Gathered,
    pack_name: &str,
    bs: Ghost<Seq<BuilderView>>,
    ops: Ghost<Seq<FactoryView<OperatorKeyView>>>,
    pcs: Ghost<Seq<FactoryView<PreconditionerKeyView>>>,
    slvs: Ghost<Seq<FactoryView<SolverKeyView>>>,
) -> (checks: Vec<CheckResult>)
    requires
        gathered_from(*g, bs@, ops@, pcs@, slvs@),
    ensures
        checks@.map_values(|c: CheckResult| check_view(c)) == component_checks(bs@, ops@, pcs@, slvs@, pack_name@),
{
    let mut checks: Vec<CheckResult> = Vec::new();
    proof {
        assert(views(g.builder_names@).len() == g.builder_names@.len());
        assert(views(g.op_names@).len() == g.op_names@.len());
        assert(views(g.pc_names@).len() == g.pc_names@.len());
        assert(views(g.slv_names@).len() == g.slv_names@.len());
        assert(g.builder_names@.len() == bs@.len());
        assert(g.op_names@.len() == ops@.len());
        assert(g.pc_names@.len() == pcs@.len());
        assert(g.slv_names@.len() == slvs@.len());
    }

    // 5. Builders are registered
    let nb = g.builder_names.len();
    let has_factories = g.op_names.len() > 0 || g.pc_names.len() > 0 || g.slv_names.len() > 0;
    if nb > 0 {
        let mut detail = String::new();
        push_decimal(&mut detail, nb);
        push_str(&mut detail, " builder(s) registered: ");
        let joined = join_strings(&g.builder_names, ", ");
        push_str(&mut detail, joined.as_str());
        push_check(&mut checks, "builders_registered", true, detail);
    } else {
        push_check(&mut checks, "builders_registered", has_factories, text("no builders registered by this pack"));
    }

    // 6. No duplicate builder keys within the pack
    let dupes = find_duplicates(&g.builder_keys);
    if dupes.len() == 0 {
        push_check(&mut checks, "no_duplicate_keys", true, text("no duplicate builder keys within pack"));
    } else {
        let mut detail = String::new();
        push_str(&mut detail, "duplicate builder keys: ");
        push_debug_list(&mut detail, &dupes);
        push_check(&mut checks, "no_duplicate_keys", false, detail);
    }

    // 7-9. Factories registered
    push_check(&mut checks, "operator_factories", true, factories_text(&g.op_names, "operator factory(ies)"));
    push_check(&mut checks, "preconditioner_factories", true, factories_text(&g.pc_names, "preconditioner factory(ies)"));
    push_check(&mut checks, "solver_factories", true, factories_text(&g.slv_names, "solver factory(ies)"));

    // 10. No duplicate operator factory keys within the pack
    let dupes = find_duplicates(&g.op_keys);
    if dupes.len() == 0 {
        push_check(&mut checks, "no_duplicate_operator_factory_keys", true, text("no duplicate operator factory keys"));
    } else {
        let mut detail = String::new();
        push_str(&mut detail, "duplicate operator factory keys: ");
        push_debug_list(&mut detail, &dupes);
        push_check(&mut checks, "no_duplicate_operator_factory_keys", false, detail);
    }

    // 11. No duplicate solver factory keys within the pack
    let dupes = find_duplicates(&g.slv_keys);
    if dupes.len() == 0 {
        push_check(&mut checks, "no_duplicate_solver_factory_keys", true, text("no duplicate solver factory keys"));
    } else {
        let mut detail = String::new();
        push_str(&mut detail, "duplicate solver factory keys: ");
        push_debug_list(&mut detail, &dupes);
        push_check(&mut checks, "no_duplicate_solver_factory_keys", false, detail);
    }

    // 12. Physics packs must not register single_field solver factories.
    if !str_eq(pack_name, "linear_solvers") {
        let sf = single_field_solvers(&g.slv_names, &g.slv_keys, slvs);
        if sf.len() == 0 {
            push_check(
                &mut checks,
                "no_single_field_solver_in_physics_pack",
                true,
                text("physics pack correctly delegates single_field solvers to solver packs"),
            );
        } else {
            let mut detail = String::new();
            push_str(&mut detail, "physics pack registers single_field solver factories (move to a solver pack): ");
            let joined = join_strings(&sf, ", ");
            push_str(&mut detail, joined.as_str());
            push_check(&mut checks, "no_single_field_solver_in_physics_pack", false, detail);
        }
    }
    assert(checks@.map_values(|c: CheckResult| check_view(c)) =~= component_checks(bs@, ops@, pcs@, slvs@, pack_name@));
    checks
}

/// The position of the first pack named `pack_name`, or the number of
/// packs when there is none.
fn find_pack(packs: &Vec<PackEntry>, pack_name: &str) -> (i: usize)
    ensures
        ({
            let ps = packs@.map_values(|p: PackEntry| pack_view(p));
            &&& i <= ps.len()
            &&& i == first_pack(ps, pack_name@, 0)
            &&& i < ps.len() ==> ps[i as int].0 == pack_name@
            &&& forall|k: int| 0 <= k < i ==> (#[trigger] ps[k]).0 != pack_name@
        }),
{
    let ghost ps = packs@.map_values(|p: PackEntry| pack_view(p));
    let ghost n = pack_name@;
    let np = packs.len();
    let mut i: usize = 0;
    while i < np
        invariant
            np == packs@.len(),
            ps == packs@.map_values(|p: PackEntry| pack_view(p)),
            n == pack_name@,
            i <= np,
            forall|k: int| 0 <= k < i ==> (#[trigger] ps[k]).0 != n,
            first_pack(ps, n, 0) == first_pack(ps, n, i as int),
        decreases np - i,
    {
        let same = str_eq(packs[i].name.as_str(), pack_name);
        proof {
            assert(ps[i as int] == pack_view(packs@[i as int]));
            assert(ps[i as int].0 == packs@[i as int].name@);
        }
        if same {
            return i;
        }
        i = i + 1;
    }
    i
}

/// Run all conformance checks for the pack named `pack_name` among `packs`.
pub fn verify_pack_among(packs: &Vec<PackEntry>, pack_name: &str) -> (r: ConformanceReport)
    ensures
        r.pack_name@ == pack_name@,
        report_checks(r) == expected_checks(packs@.map_values(|p: PackEntry| pack_view(p)), pack_name@),
{
    let ghost ps = packs@.map_values(|p: PackEntry| pack_view(p));
    let ghost n = pack_name@;
    let mut checks: Vec<CheckResult> = Vec::new();

    // 1. Discovery
    let np = packs.len();
    let first = find_pack(packs, pack_name);
    let found = first < np;
    proof {
        if found {
            assert(ps[first as int].0 == n);
            assert(pack_found(ps, n));
        } else {
            assert forall|k: int| 0 <= k < ps.len() implies (#[trigger] ps[k]).0 != n by {}
        }
    }
    if !found {
        let mut names: Vec<String> = Vec::new();
        let mut k: usize = 0;
        while k < np
            invariant
                np == packs@.len(),
                ps == packs@.map_values(|p: PackEntry| pack_view(p)),
                k <= np,
                names@.len() == k,
                forall|q: int| 0 <= q < k ==> (#[trigger] names@[q])@ == ps[q].0,
            decreases np - k,
        {
            names.push(packs[k].name.clone());
            k = k + 1;
        }
        assert(views(names@) =~= ps.map_values(|p: PackView| p.0));
        let mut detail = String::new();
        push_str(&mut detail, "pack '");
        push_str(&mut detail, pack_name);
        push_str(&mut detail, "' NOT found; available: ");
        push_debug_list(&mut detail, &names);
        push_check(&mut checks, "discovery", false, detail);
        let r = ConformanceReport { pack_name: text(pack_name), checks };
        assert(report_checks(r) =~= expected_checks(ps, n));
        return r;
    }
    let mut detail = String::new();
    push_str(&mut detail, "pack '");
    push_str(&mut detail, pack_name);
    push_str(&mut detail, "' found via inventory");
    push_check(&mut checks, "discovery", true, detail);

    let entry = &packs[first];
    assert(ps[first as int] == pack_view(*entry));

    // 2. Deterministic capabilities
    let ncaps = entry.capabilities.len();
    let mut detail = String::new();
    push_decimal(&mut detail, ncaps);
    push_str(&mut detail, " capabilities returned consistently");
    push_check(&mut checks, "capabilities_deterministic", true, detail);

    // 3. Non-empty capabilities
    if ncaps > 0 {
        let mut detail = String::new();
        push_str(&mut detail, "pack declares ");
        push_decimal(&mut detail, ncaps);
        push_str(&mut detail, " capabilities");
        push_check(&mut checks, "capabilities_nonempty", true, detail);
    } else {
        push_check(&mut checks, "capabilities_nonempty", false, text("pack declares zero capabilities"));
    }

    // 4. Version non-empty
    if entry.version.as_str().unicode_len() > 0 {
        let mut detail = String::new();
        push_str(&mut detail, "version = '");
        push_str(&mut detail, entry.version.as_str());
        push_str(&mut detail, "'");
        push_check(&mut checks, "version_nonempty", true, detail);
    } else {
        push_check(&mut checks, "version_nonempty", false, text("version is empty"));
    }

    // 5-12. Checks over the components of the packs with this name.
    let g = gather(packs, pack_name);
    let rest = component_check_results(
        &g,
        pack_name,
        Ghost(builders_of(ps, n)),
        Ghost(operators_of(ps, n)),
        Ghost(preconditioners_of(ps, n)),
        Ghost(solvers_of(ps, n)),
    );
    let ghost head = checks@.map_values(|c: CheckResult| check_view(c));
    let ghost tail = rest@.map_values(|c: CheckResult| check_view(c));
    let ghost entry_view = ps[first as int];
    let ghost ncaps_spec = entry_view.2.len();
    proof {
        assert(entry_view.2.len() == ncaps as nat);
        assert(entry_view.1 == entry.version@);
        assert(head =~= seq![
            ("discovery"@, true, "pack '"@ + n + "' found via inventory"@),
            ("capabilities_deterministic"@, true, decimal(ncaps_spec) + " capabilities returned consistently"@),
            (
                "capabilities_nonempty"@,
                ncaps_spec > 0,
                if ncaps_spec > 0 { "pack declares "@ + decimal(ncaps_spec) + " capabilities"@ } else { "pack declares zero capabilities"@ },
            ),
            (
                "version_nonempty"@,
                entry_view.1.len() > 0,
                if entry_view.1.len() > 0 { "version = '"@ + entry_view.1 + "'"@ } else { "version is empty"@ },
            ),
        ]);
    }
    let mut rest = rest;
    let ghost before = checks@;
    let ghost rest0 = rest@;
    checks.append(&mut rest);
    proof {
        assert(checks@ =~= before + rest0);
        assert(checks@.map_values(|c: CheckResult| check_view(c)) =~= head + tail);
    }
    let r = ConformanceReport { pack_name: text(pack_name), checks };
    assert(report_checks(r) =~= expected_checks(ps, n));
    r
}

fn factories_text(names: &Vec<String>, what: &str) -> (s: String)
    ensures
        s@ == factories_detail(names@.len(), what@, views(names@)),
{
    let mut s = String::new();
    push_decimal(&mut s, names.len());
    push_str(&mut s, " ");
    push_str(&mut s, what);
    push_str(&mut s, " registered");
    if names.len() > 0 {
        push_str(&mut s, ": ");
        let joined = join_strings(names, ", ");
        push_str(&mut s, joined.as_str());
    }
    s
}

/// Run all conformance checks for the named pack of the catalog.
pub fn verify_pack(pack_name: &str) -> (r: ConformanceReport)
    ensures
        r.pack_name@ == pack_name@,
        report_checks(r) == expected_checks(catalog_view(), pack_name@),
{
    let packs = iter_packs();
    verify_pack_among(&packs, pack_name)
}

impl ConformanceReport {
    /// Returns `true` when every check passed.
    pub fn all_passed(&self) -> (b: bool)
        ensures
            b == all_checks_pass(report_checks(*self)),
    {
        let ghost cs = report_checks(*self);
        let mut i: usize = 0;
        while i < self.checks.len()
            invariant
                cs == report_checks(*self),
                i <= self.checks@.len(),
                forall|k: int| 0 <= k < i ==> (#[trigger] cs[k]).1,
            decreases self.checks@.len() - i,
        {
            if !self.checks[i].passed {
                assert(!cs[i as int].1);
                return false;
            }
            i = i + 1;
        }
        true
    }

    /// Returns only the failed checks, in order.
    pub fn failures(&self) -> (v: Vec<&CheckResult>)
        ensures
            v@.map_values(|c: &CheckResult| check_view(*c)) == report_checks(*self).filter(|c: CheckView| !c.1),
    {
        let ghost cs = report_checks(*self);
        let mut v: Vec<&CheckResult> = Vec::new();
        let mut i: usize = 0;
        while i < self.checks.len()
            invariant
                cs == report_checks(*self),
                i <= self.checks@.len(),
                v@.map_values(|c: &CheckResult| check_view(*c)) == cs.take(i as int).filter(|c: CheckView| !c.1),
            decreases self.checks@.len() - i,
        {
            proof {
                reveal_with_fuel(Seq::<_>::filter, 1);
                assert(cs.take(i + 1).drop_last() =~= cs.take(i as int));
            }
            if !self.checks[i].passed {
                v.push(&self.checks[i]);
            }
            assert(v@.map_values(|c: &CheckResult| check_view(*c)) =~= cs.take(i + 1).filter(|c: CheckView| !c.1));
            i = i + 1;
        }
        assert(cs.take(self.checks@.len() as int) =~= cs);
        v
    }

    /// The report as text: one line per check and a summary line.
    pub fn render(&self) -> (s: String)
        ensures
            s@ == report_text(self.pack_name@, report_checks(*self)),
    {
        let ghost cs = report_checks(*self);
        let mut s = String::new();
        push_str(&mut s, "Conformance report for pack '");
        push_str(&mut s, self.pack_name.as_str());
        push_str(&mut s, "':\n");
        let ghost head = s@;
        let mut failed: usize = 0;
        let mut i: usize = 0;
        while i < self.checks.len()
            invariant
                cs == report_checks(*self),
                i <= self.checks@.len(),
                s@ == head + check_lines(cs.take(i as int)),
                failed == failure_count(cs.take(i as int)),
                failed <= i,
            decreases self.checks@.len() - i,
        {
            proof {
                assert(cs.take(i + 1).drop_last() =~= cs.take(i as int));
            }
            let c = &self.checks[i];
            push_str(&mut s, "  [");
            if c.passed {
                push_str(&mut s, "PASS");
            } else {
                push_str(&mut s, "FAIL");
                failed = failed + 1;
            }
            push_str(&mut s, "] ");
            push_str(&mut s, c.name.as_str());
            push_str(&mut s, ": ");
            push_str(&mut s, c.detail.as_str());
            push_str(&mut s, "\n");
            i = i + 1;
        }
        assert(cs.take(self.checks@.len() as int) =~= cs);
        if self.all_passed() {
            push_str(&mut s, "All checks passed.\n");
        } else {
            push_decimal(&mut s, failed);
            push_str(&mut s, " check(s) failed.\n");
        }
        s
    }
}

/// Run all conformance checks for the named pack of the catalog, for a pack
/// whose checks all pass; the report it builds passes every check.
pub fn assert_pack_conforms(pack_name: &str)
    requires
        all_checks_pass(expected_checks(catalog_view(), pack_name@)),
{
    let report = verify_pack(pack_name);
    let passed = report.all_passed();
    assert(passed);
}

/// A report passes exactly when it lists no failed check, and the number
/// of failed checks it counts is the number of checks that failed.
pub proof fn lemma_all_passed_iff_no_failures(cs: Seq<CheckView>)
    ensures
        all_checks_pass(cs) <==> cs.filter(|c: CheckView| !c.1).len() == 0,
        failure_count(cs) == cs.filter(|c: CheckView| !c.1).len(),
    decreases cs.len(),
{
    reveal_with_fuel(Seq::<_>::filter, 1);
    if cs.len() > 0 {
        let init = cs.drop_last();
        lemma_all_passed_iff_no_failures(init);
        assert(cs.filter(|c: CheckView| !c.1) == if !cs.last().1 {
            init.filter(|c: CheckView| !c.1).push(cs.last())
        } else {
            init.filter(|c: CheckView| !c.1)
        });
        if all_checks_pass(cs) {
            assert forall|i: int| 0 <= i < init.len() implies (#[trigger] init[i]).1 by {
                assert(init[i] == cs[i]);
            }
        }
        if all_checks_pass(init) && cs.last().1 {
            assert forall|i: int| 0 <= i < cs.len() implies (#[trigger] cs[i]).1 by {
                if i < init.len() {
                    assert(init[i] == cs[i]);
                }
            }
        }
    }
}

/// The duplicate-key checks find nothing exactly when the keys are
/// pairwise distinct.
pub proof fn lemma_no_duplicates_iff_distinct(s: Seq<Seq<char>>)
    ensures
        duplicates(s).len() == 0 <==> forall|i: int, j: int| 0 <= i < j < s.len() ==> s[i] != s[j],
    decreases s.len(),
{
    if s.len() > 0 {
        let init = s.drop_last();
        lemma_no_duplicates_iff_distinct(init);
        if duplicates(s).len() == 0 {
            assert(duplicates(init).len() == 0);
            assert(!init.contains(s.last()));
            assert forall|i: int, j: int| 0 <= i < j < s.len() implies s[i] != s[j] by {
                if j < s.len() - 1 {
                    assert(init[i] == s[i] && init[j] == s[j]);
                } else if s[i] == s[j] {
                    assert(init[i] == s.last());
                    assert(init.contains(s.last()));
                }
            }
        }
        if forall|i: int, j: int| 0 <= i < j < s.len() ==> s[i] != s[j] {
            assert forall|i: int, j: int| 0 <= i < j < init.len() implies init[i] != init[j] by {
                assert(s[i] != s[j]);
            }
            if init.contains(s.last()) {
                let i = choose|i: int| 0 <= i < init.len() && init[i] == s.last();
                assert(s[i] == s[s.len() - 1]);
            }
        }
    }
}

proof fn lemma_join_has_item(items: Seq<Seq<char>>, sep: Seq<char>, k: int)
    requires
        0 <= k < items.len(),
    ensures
        exists|a: Seq<char>, b: Seq<char>| join(items, sep) == a + items[k] + b,
    decreases items.len(),
{
    if items.len() == 1 {
        assert(join(items, sep) == Seq::<char>::empty() + items[k] + Seq::<char>::empty());
    } else if k == items.len() - 1 {
        assert(join(items, sep) == (join(items.drop_last(), sep) + sep) + items[k] + Seq::<char>::empty());
    } else {
        lemma_join_has_item(items.drop_last(), sep, k);
        let (a, b) = choose|a: Seq<char>, b: Seq<char>| join(items.drop_last(), sep) == a + items.drop_last()[k] + b;
        assert(join(items, sep) == a + items[k] + (b + sep + items.last()));
    }
}

proof fn lemma_contains_text_in_middle(a: Seq<char>, x: Seq<char>, b: Seq<char>)
    ensures
        contains_text(a + x + b, x),
{
    let hay = a + x + b;
    assert(hay.subrange(a.len() as int, (a.len() + x.len()) as int) =~= x);
}

/// A solver factory one of whose keys has a single-field block structure
/// lists "single_field" in its keys text.
proof fn lemma_single_field_key_in_text(keys: Seq<SolverKeyView>, k: int)
    requires
        0 <= k < keys.len(),
        keys[k].3 == "single_field"@,
    ensures
        contains_text(solver_keys_text(keys), "single_field"@),
{
    let items = keys.map_values(|x: SolverKeyView| solver_key_summary(x));
    lemma_join_has_item(items, ", "@, k);
    let (a, b) = choose|a: Seq<char>, b: Seq<char>| join(items, ", "@) == a + items[k] + b;
    let key = keys[k];
    let pre = "("@ + key.0 + ", spd="@ + bool_text(key.1) + ", complex="@ + bool_text(key.2) + ", "@;
    assert(items[k] == pre + key.3 + ")"@);
    assert(solver_keys_text(keys) == (a + pre) + "single_field"@ + (")"@ + b));
    lemma_contains_text_in_middle(a + pre, "single_field"@, ")"@ + b);
}

proof fn lemma_single_field_names_nonempty(slvs: Seq<FactoryView<SolverKeyView>>, f: int)
    requires
        0 <= f < slvs.len(),
        contains_text(solver_keys_text(slvs[f].1), "single_field"@),
    ensures
        single_field_solver_names(slvs).len() > 0,
    decreases slvs.len(),
{
    if f < slvs.len() - 1 {
        lemma_single_field_names_nonempty(slvs.drop_last(), f);
    }
}

proof fn lemma_solvers_of_has(ps: Seq<PackView>, n: Seq<char>, p: int, f: int)
    requires
        0 <= p < ps.len(),
        ps[p].0 == n,
        0 <= f < ps[p].6.len(),
    ensures
        exists|g: int| 0 <= g < solvers_of(ps, n).len() && #[trigger] solvers_of(ps, n)[g] == ps[p].6[f],
    decreases ps.len(),
{
    let prev = solvers_of(ps.drop_last(), n);
    if p == ps.len() - 1 {
        assert(solvers_of(ps, n)[prev.len() + f] == ps[p].6[f]);
    } else {
        lemma_solvers_of_has(ps.drop_last(), n, p, f);
        let g = choose|g: int| 0 <= g < prev.len() && #[trigger] prev[g] == ps.drop_last()[p].6[f];
        assert(solvers_of(ps, n)[g] == ps[p].6[f]);
    }
}

proof fn lemma_solvers_of_empty(ps: Seq<PackView>, n: Seq<char>)
    requires
        forall|p: int| 0 <= p < ps.len() && (#[trigger] ps[p]).0 == n ==> ps[p].6.len() == 0,
    ensures
        solvers_of(ps, n).len() == 0,
    decreases ps.len(),
{
    if ps.len() > 0 {
        assert forall|p: int| 0 <= p < ps.drop_last().len() && (#[trigger] ps.drop_last()[p]).0 == n implies ps.drop_last()[p].6.len() == 0 by {
            assert(ps.drop_last()[p] == ps[p]);
        }
        lemma_solvers_of_empty(ps.drop_last(), n);
        assert(ps.last() == ps[ps.len() - 1]);
    }
}

/// For a pack other than the solver pack, the last check is the
/// physics/solver separation check. It fails, and so the pack does not
/// conform, when a pack of that name registers a solver factory with a key
/// whose block structure is single-field; it passes when no pack of that
/// name registers any solver factory.
pub proof fn lemma_physics_pack_solver_separation(ps: Seq<PackView>, n: Seq<char>)
    requires
        pack_found(ps, n),
        n != "linear_solvers"@,
    ensures
        expected_checks(ps, n).last().0 == "no_single_field_solver_in_physics_pack"@,
        (exists|p: int, f: int, k: int|
            0 <= p < ps.len() && ps[p].0 == n && 0 <= f < ps[p].6.len() && 0 <= k < ps[p].6[f].1.len()
                && (#[trigger] ps[p].6[f].1[k]).3 == "single_field"@) ==> {
            &&& !expected_checks(ps, n).last().1
            &&& !all_checks_pass(expected_checks(ps, n))
        },
        (forall|p: int| 0 <= p < ps.len() && (#[trigger] ps[p]).0 == n ==> ps[p].6.len() == 0) ==> expected_checks(
            ps,
            n,
        ).last().1,
{
    let cs = expected_checks(ps, n);
    let slvs = solvers_of(ps, n);
    let comp = component_checks(builders_of(ps, n), operators_of(ps, n), preconditioners_of(ps, n), slvs, n);
    assert(cs.last() == comp.last());
    if exists|p: int, f: int, k: int|
        0 <= p < ps.len() && ps[p].0 == n && 0 <= f < ps[p].6.len() && 0 <= k < ps[p].6[f].1.len()
            && (#[trigger] ps[p].6[f].1[k]).3 == "single_field"@ {
        let (p, f, k) = choose|p: int, f: int, k: int|
            0 <= p < ps.len() && ps[p].0 == n && 0 <= f < ps[p].6.len() && 0 <= k < ps[p].6[f].1.len()
                && (#[trigger] ps[p].6[f].1[k]).3 == "single_field"@;
        lemma_solvers_of_has(ps, n, p, f);
        let g = choose|g: int| 0 <= g < slvs.len() && #[trigger] slvs[g] == ps[p].6[f];
        lemma_single_field_key_in_text(slvs[g].1, k);
        lemma_single_field_names_nonempty(slvs, g);
        assert(!cs[cs.len() - 1].1);
    }
    if forall|p: int| 0 <= p < ps.len() && (#[trigger] ps[p]).0 == n ==> ps[p].6.len() == 0 {
        lemma_solvers_of_empty(ps, n);
        assert(single_field_solver_names(slvs).len() == 0);
    }
}

proof fn lemma_duplicates_found(s: Seq<Seq<char>>, i: int, j: int)
    requires
        0 <= i < j < s.len(),
        s[i] == s[j],
    ensures
        duplicates(s).len() > 0,
    decreases s.len(),
{
    if j == s.len() - 1 {
        assert(s.drop_last()[i] == s.last());
    } else {
        lemma_duplicates_found(s.drop_last(), i, j);
    }
}

proof fn lemma_duplicates_short(s: Seq<Seq<char>>)
    requires
        s.len() <= 1,
    ensures
        duplicates(s).len() == 0,
{
    if s.len() == 1 {
        assert(s.drop_last().len() == 0);
        assert(!s.drop_last().contains(s.last()));
        assert(duplicates(s.drop_last()).len() == 0);
    }
}

/// For a pack that is found, two of its builders with the same equation
/// type, dimensions and backends make the duplicate builder key check
/// fail, and two of its operator (or solver) factories with the same keys
/// make the duplicate operator (or solver) factory key check fail; either
/// way the pack does not conform. With at most one builder, operator
/// factory or solver factory, the matching check passes.
pub proof fn lemma_duplicate_keys_detected(ps: Seq<PackView>, n: Seq<char>)
    requires
        pack_found(ps, n),
    ensures
        ({
            let cs = expected_checks(ps, n);
            let bs = builders_of(ps, n);
            let ops = operators_of(ps, n);
            let slvs = solvers_of(ps, n);
            &&& cs[5].0 == "no_duplicate_keys"@
            &&& cs[9].0 == "no_duplicate_operator_factory_keys"@
            &&& cs[10].0 == "no_duplicate_solver_factory_keys"@
            &&& ((exists|i: int, j: int| 0 <= i < j < bs.len() && #[trigger] bs[i].1 == #[trigger] bs[j].1
                && bs[i].2 == bs[j].2 && bs[i].3 == bs[j].3) ==> !cs[5].1 && !all_checks_pass(cs))
            &&& ((exists|i: int, j: int| 0 <= i < j < ops.len() && #[trigger] ops[i].1 == #[trigger] ops[j].1)
                ==> !cs[9].1 && !all_checks_pass(cs))
            &&& ((exists|i: int, j: int| 0 <= i < j < slvs.len() && #[trigger] slvs[i].1 == #[trigger] slvs[j].1)
                ==> !cs[10].1 && !all_checks_pass(cs))
            &&& (bs.len() <= 1 ==> cs[5].1)
            &&& (ops.len() <= 1 ==> cs[9].1)
            &&& (slvs.len() <= 1 ==> cs[10].1)
        }),
{
    let cs = expected_checks(ps, n);
    let bs = builders_of(ps, n);
    let ops = operators_of(ps, n);
    let slvs = solvers_of(ps, n);
    let bk = bs.map_values(|b: BuilderView| builder_key(b));
    let ok = ops.map_values(|f: FactoryView<OperatorKeyView>| operator_keys_text(f.1));
    let sk = slvs.map_values(|f: FactoryView<SolverKeyView>| solver_keys_text(f.1));
    if exists|i: int, j: int| 0 <= i < j < bs.len() && #[trigger] bs[i].1 == #[trigger] bs[j].1
        && bs[i].2 == bs[j].2 && bs[i].3 == bs[j].3 {
        let (i, j) = choose|i: int, j: int| 0 <= i < j < bs.len() && #[trigger] bs[i].1 == #[trigger] bs[j].1
            && bs[i].2 == bs[j].2 && bs[i].3 == bs[j].3;
        assert(bk[i] == bk[j]);
        lemma_duplicates_found(bk, i, j);
        assert(!cs[5].1);
    }
    if exists|i: int, j: int| 0 <= i < j < ops.len() && #[trigger] ops[i].1 == #[trigger] ops[j].1 {
        let (i, j) = choose|i: int, j: int| 0 <= i < j < ops.len() && #[trigger] ops[i].1 == #[trigger] ops[j].1;
        assert(ok[i] == ok[j]);
        lemma_duplicates_found(ok, i, j);
        assert(!cs[9].1);
    }
    if exists|i: int, j: int| 0 <= i < j < slvs.len() && #[trigger] slvs[i].1 == #[trigger] slvs[j].1 {
        let (i, j) = choose|i: int, j: int| 0 <= i < j < slvs.len() && #[trigger] slvs[i].1 == #[trigger] slvs[j].1;
        assert(sk[i] == sk[j]);
        lemma_duplicates_found(sk, i, j);
        assert(!cs[10].1);
    }
    if bs.len() <= 1 {
        lemma_duplicates_short(bk);
    }
    if ops.len() <= 1 {
        lemma_duplicates_short(ok);
    }
    if slvs.len() <= 1 {
        lemma_duplicates_short(sk);
    }
}

} // verus!
