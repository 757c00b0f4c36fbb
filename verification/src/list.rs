//! Listing of the registered packs and of the builders and factories a
//! registry holds, as text and as a structured output.

use vstd::prelude::*;
use crate::components::{
    operator_key_views, preconditioner_key_views, solver_key_views, OperatorFactory, PreconditionerFactory,
    ProblemBuilder, SolverFactory,
};
use crate::keys::{operator_key_summary, preconditioner_key_summary, solver_key_summary};
use crate::registry::{
    builder_info_matches, dimensions_text, listed_pack_infos, pack_info_view, BuilderInfo, FactoryInfo, MethodRegistry, PackInfo,
};
use crate::text::{debug_list, join, push_str, views};

verus! {

/// A pack as listed: name, version, capability labels.
pub type PackInfoView = (Seq<char>, Seq<char>, Seq<Seq<char>>);

/// A listed factory: name, pack, keys text.
pub type FactoryLine = (Seq<char>, Seq<char>, Seq<char>);

/// A listed builder: name, pack, equation type, dimensions text, backends text.
pub type BuilderLine = (Seq<char>, Seq<char>, Seq<char>, Seq<char>, Seq<char>);

/// How a registered builder is listed.
pub open spec fn builder_line(e: (Seq<char>, ProblemBuilder)) -> BuilderLine {
    (e.1.name@, e.0, e.1.equation_type@, dimensions_text(e.1.dimensions@), debug_list(views(e.1.backends@)))
}

/// How a registered operator factory is listed.
pub open spec fn operator_line(e: (Seq<char>, OperatorFactory)) -> FactoryLine {
    (e.1.name@, e.0, join(operator_key_views(e.1).map_values(|x| operator_key_summary(x)), ", "@))
}

/// How a registered preconditioner factory is listed.
pub open spec fn preconditioner_line(e: (Seq<char>, PreconditionerFactory)) -> FactoryLine {
    (e.1.name@, e.0, join(preconditioner_key_views(e.1).map_values(|x| preconditioner_key_summary(x)), ", "@))
}

/// How a registered solver factory is listed.
pub open spec fn solver_line(e: (Seq<char>, SolverFactory)) -> FactoryLine {
    (e.1.name@, e.0, join(solver_key_views(e.1).map_values(|x| solver_key_summary(x)), ", "@))
}

/// The capability lines of a pack.
pub open spec fn capability_lines(caps: Seq<Seq<char>>) -> Seq<char>
    decreases caps.len(),
{
    if caps.len() == 0 {
        Seq::empty()
    } else {
        capability_lines(caps.drop_last()) + "    - "@ + caps.last() + "\n"@
    }
}

/// The lines of the listed packs.
pub open spec fn pack_lines(ps: Seq<PackInfoView>) -> Seq<char>
    decreases ps.len(),
{
    if ps.len() == 0 {
        Seq::empty()
    } else {
        pack_lines(ps.drop_last()) + "  "@ + ps.last().0 + " v"@ + ps.last().1 + "\n"@ + capability_lines(
            ps.last().2,
        )
    }
}

/// The lines of the listed builders.
pub open spec fn builder_lines(bs: Seq<BuilderLine>) -> Seq<char>
    decreases bs.len(),
{
    if bs.len() == 0 {
        Seq::empty()
    } else {
        let b = bs.last();
        builder_lines(bs.drop_last()) + "  "@ + b.0 + " (pack="@ + b.1 + ") equation="@ + b.2 + " dims="@ + b.3
            + " backends="@ + b.4 + "\n"@
    }
}

/// The lines of listed factories.
pub open spec fn factory_lines(fs: Seq<FactoryLine>) -> Seq<char>
    decreases fs.len(),
{
    if fs.len() == 0 {
        Seq::empty()
    } else {
        let f = fs.last();
        factory_lines(fs.drop_last()) + "  "@ + f.0 + " (pack="@ + f.1 + ") keys=["@ + f.2 + "]\n"@
    }
}

/// A titled section, or nothing when it has no line.
pub open spec fn factory_section(title: Seq<char>, fs: Seq<FactoryLine>) -> Seq<char> {
    if fs.len() == 0 {
        Seq::empty()
    } else {
        "\n"@ + title + "\n"@ + factory_lines(fs)
    }
}

/// The text listing of a registry.
pub open spec fn list_text(r: MethodRegistry) -> Seq<char> {
    let ps = listed_pack_infos();
    if ps.len() == 0 {
        "No packs discovered.\n"@
    } else {
        let bs = r.builder_entries().map_values(|e: (Seq<char>, ProblemBuilder)| builder_line(e));
        "Discovered packs:\n"@ + pack_lines(ps) + (if bs.len() == 0 {
            Seq::empty()
        } else {
            "\nRegistered builders:\n"@ + builder_lines(bs)
        }) + factory_section(
            "Registered operator factories:"@,
            r.operator_entries().map_values(|e: (Seq<char>, OperatorFactory)| operator_line(e)),
        ) + factory_section(
            "Registered preconditioner factories:"@,
            r.preconditioner_entries().map_values(|e: (Seq<char>, PreconditionerFactory)| preconditioner_line(e)),
        ) + factory_section(
            "Registered solver factories:"@,
            r.solver_entries().map_values(|e: (Seq<char>, SolverFactory)| solver_line(e)),
        )
    }
}

/// What a factory info record lists.
pub open spec fn factory_info_line(f: FactoryInfo) -> FactoryLine {
    (f.name@, f.pack@, f.keys@)
}

fn push_capability_lines(out: &mut String, caps: &Vec<String>)
    ensures
        final(out)@ == old(out)@ + capability_lines(views(caps@)),
{
    let ghost start = out@;
    let ghost cs = views(caps@);
    let n = caps.len();
    let mut i: usize = 0;
    while i < n
        invariant
            n == caps@.len(),
            cs == views(caps@),
            i <= n,
            out@ == start + capability_lines(cs.take(i as int)),
        decreases n - i,
    {
        assert(cs.take(i + 1).drop_last() =~= cs.take(i as int));
        push_str(out, "    - ");
        push_str(out, caps[i].as_str());
        push_str(out, "\n");
        assert(out@ =~= start + capability_lines(cs.take(i + 1)));
        i = i + 1;
    }
    assert(cs.take(n as int) =~= cs);
}

fn push_pack_lines(out: &mut String, packs: &Vec<PackInfo>)
    ensures
        final(out)@ == old(out)@ + pack_lines(packs@.map_values(|i: PackInfo| pack_info_view(i))),
{
    let ghost start = out@;
    let ghost ps = packs@.map_values(|i: PackInfo| pack_info_view(i));
    let n = packs.len();
    let mut i: usize = 0;
    while i < n
        invariant
            n == packs@.len(),
            ps == packs@.map_values(|i: PackInfo| pack_info_view(i)),
            i <= n,
            out@ == start + pack_lines(ps.take(i as int)),
        decreases n - i,
    {
        assert(ps.take(i + 1).drop_last() =~= ps.take(i as int));
        let p = &packs[i];
        assert(ps[i as int] == pack_info_view(*p));
        push_str(out, "  ");
        push_str(out, p.name.as_str());
        push_str(out, " v");
        push_str(out, p.version.as_str());
        push_str(out, "\n");
        push_capability_lines(out, &p.capabilities);
        assert(out@ =~= start + pack_lines(ps.take(i + 1)));
        i = i + 1;
    }
    assert(ps.take(n as int) =~= ps);
}

fn push_builder_lines(out: &mut String, infos: &Vec<BuilderInfo>, lines: Ghost<Seq<BuilderLine>>)
    requires
        infos@.len() == lines@.len(),
        forall|k: int| 0 <= k < infos@.len() ==> #[trigger] lines@[k] == (infos@[k].name@, infos@[k].pack@,
            infos@[k].equation_type@, infos@[k].dimensions@, infos@[k].backends@),
    ensures
        final(out)@ == old(out)@ + builder_lines(lines@),
{
    let ghost start = out@;
    let ghost ls = lines@;
    let n = infos.len();
    let mut i: usize = 0;
    while i < n
        invariant
            n == infos@.len(),
            ls == lines@,
            ls.len() == n,
            forall|k: int| 0 <= k < infos@.len() ==> #[trigger] ls[k] == (infos@[k].name@, infos@[k].pack@,
                infos@[k].equation_type@, infos@[k].dimensions@, infos@[k].backends@),
            i <= n,
            out@ == start + builder_lines(ls.take(i as int)),
        decreases n - i,
    {
        assert(ls.take(i + 1).drop_last() =~= ls.take(i as int));
        assert(ls.take(i + 1).last() == ls[i as int]);
        let b = &infos[i];
        push_str(out, "  ");
        push_str(out, b.name.as_str());
        push_str(out, " (pack=");
        push_str(out, b.pack.as_str());
        push_str(out, ") equation=");
        push_str(out, b.equation_type.as_str());
        push_str(out, " dims=");
        push_str(out, b.dimensions.as_str());
        push_str(out, " backends=");
        push_str(out, b.backends.as_str());
        push_str(out, "\n");
        assert(out@ =~= start + builder_lines(ls.take(i + 1)));
        i = i + 1;
    }
    assert(ls.take(n as int) =~= ls);
}

fn push_factory_section(out: &mut String, title: &str, infos: &Vec<FactoryInfo>, lines: Ghost<Seq<FactoryLine>>)
    requires
        infos@.len() == lines@.len(),
        forall|k: int| 0 <= k < infos@.len() ==> #[trigger] lines@[k] == factory_info_line(infos@[k]),
    ensures
        final(out)@ == old(out)@ + factory_section(title@, lines@),
{
    if infos.len() == 0 {
        return;
    }
    let ghost start = out@;
    let ghost ls = lines@;
    push_str(out, "\n");
    push_str(out, title);
    push_str(out, "\n");
    let ghost head = out@;
    let n = infos.len();
    let mut i: usize = 0;
    while i < n
        invariant
            n == infos@.len(),
            ls == lines@,
            ls.len() == n,
            forall|k: int| 0 <= k < infos@.len() ==> #[trigger] ls[k] == factory_info_line(infos@[k]),
            i <= n,
            out@ == head + factory_lines(ls.take(i as int)),
        decreases n - i,
    {
        assert(ls.take(i + 1).drop_last() =~= ls.take(i as int));
        assert(ls.take(i + 1).last() == ls[i as int]);
        let f = &infos[i];
        push_str(out, "  ");
        push_str(out, f.name.as_str());
        push_str(out, " (pack=");
        push_str(out, f.pack.as_str());
        push_str(out, ") keys=[");
        push_str(out, f.keys.as_str());
        push_str(out, "]\n");
        assert(out@ =~= head + factory_lines(ls.take(i + 1)));
        i = i + 1;
    }
    assert(ls.take(n as int) =~= ls);
    assert(out@ =~= start + factory_section(title@, ls));
}

/// Render the pack list of a registry as human-readable text.
pub fn render_list_text(registry: &MethodRegistry) -> (s: String)
    ensures
        s@ == list_text(*registry),
{
    let packs = registry.pack_info();
    let ghost ps = listed_pack_infos();
    assert(packs@.map_values(|i: PackInfo| pack_info_view(i)) == ps);
    let mut out = String::new();
    if packs.len() == 0 {
        assert(ps.len() == 0);
        push_str(&mut out, "No packs discovered.\n");
        return out;
    }
    push_str(&mut out, "Discovered packs:\n");
    push_pack_lines(&mut out, &packs);

    let builders = registry.builder_info();
    let ghost bs = registry.builder_entries().map_values(|e: (Seq<char>, ProblemBuilder)| builder_line(e));
    proof {
        assert forall|k: int| 0 <= k < builders@.len() implies #[trigger] bs[k] == (builders@[k].name@,
            builders@[k].pack@, builders@[k].equation_type@, builders@[k].dimensions@, builders@[k].backends@) by {
            assert(builder_info_matches(builders@[k], registry.builder_entries()[k]));
        }
    }
    if builders.len() > 0 {
        push_str(&mut out, "\nRegistered builders:\n");
        push_builder_lines(&mut out, &builders, Ghost(bs));
    }

    let ops = registry.operator_factory_info();
    let ghost ol = registry.operator_entries().map_values(|e: (Seq<char>, OperatorFactory)| operator_line(e));
    assert forall|k: int| 0 <= k < ops@.len() implies #[trigger] ol[k] == factory_info_line(ops@[k]) by {}
    push_factory_section(&mut out, "Registered operator factories:", &ops, Ghost(ol));

    let pcs = registry.preconditioner_factory_info();
    let ghost pl = registry.preconditioner_entries().map_values(
        |e: (Seq<char>, PreconditionerFactory)| preconditioner_line(e),
    );
    assert forall|k: int| 0 <= k < pcs@.len() implies #[trigger] pl[k] == factory_info_line(pcs@[k]) by {}
    push_factory_section(&mut out, "Registered preconditioner factories:", &pcs, Ghost(pl));

    let slvs = registry.solver_factory_info();
    let ghost sl = registry.solver_entries().map_values(|e: (Seq<char>, SolverFactory)| solver_line(e));
    assert forall|k: int| 0 <= k < slvs@.len() implies #[trigger] sl[k] == factory_info_line(slvs@[k]) by {}
    push_factory_section(&mut out, "Registered solver factories:", &slvs, Ghost(sl));
    out
}

/// The structured output of the `list` command.
#[derive(Debug, Clone)]
pub struct ListJsonOutput {
    pub packs: Vec<PackInfo>,
    pub operator_factories: Vec<FactoryInfo>,
    pub preconditioner_factories: Vec<FactoryInfo>,
    pub solver_factories: Vec<FactoryInfo>,
}

/// Build the structured output of the `list` command.
pub fn build_list_json(registry: &MethodRegistry) -> (o: ListJsonOutput)
    ensures
        o.packs@.map_values(|i: PackInfo| pack_info_view(i)) == listed_pack_infos(),
        o.operator_factories@.map_values(|f: FactoryInfo| factory_info_line(f)) == registry.operator_entries().map_values(
            |e: (Seq<char>, OperatorFactory)| operator_line(e)),
        o.preconditioner_factories@.map_values(|f: FactoryInfo| factory_info_line(f))
            == registry.preconditioner_entries().map_values(
            |e: (Seq<char>, PreconditionerFactory)| preconditioner_line(e)),
        o.solver_factories@.map_values(|f: FactoryInfo| factory_info_line(f)) == registry.solver_entries().map_values(
            |e: (Seq<char>, SolverFactory)| solver_line(e)),
        forall|k: int| 0 <= k < o.operator_factories@.len() ==> (#[trigger] o.operator_factories@[k]).factory_type@
            == "operator_factory"@,
        forall|k: int| 0 <= k < o.preconditioner_factories@.len() ==> (
        #[trigger] o.preconditioner_factories@[k]).factory_type@ == "preconditioner_factory"@,
        forall|k: int| 0 <= k < o.solver_factories@.len() ==> (#[trigger] o.solver_factories@[k]).factory_type@
            == "solver_factory"@,
{
    let packs = registry.pack_info();
    let ops = registry.operator_factory_info();
    let pcs = registry.preconditioner_factory_info();
    let slvs = registry.solver_factory_info();
    assert(ops@.map_values(|f: FactoryInfo| factory_info_line(f)) =~= registry.operator_entries().map_values(
        |e: (Seq<char>, OperatorFactory)| operator_line(e)));
    assert(pcs@.map_values(|f: FactoryInfo| factory_info_line(f)) =~= registry.preconditioner_entries().map_values(
        |e: (Seq<char>, PreconditionerFactory)| preconditioner_line(e)));
    assert(slvs@.map_values(|f: FactoryInfo| factory_info_line(f)) =~= registry.solver_entries().map_values(
        |e: (Seq<char>, SolverFactory)| solver_line(e)));
    ListJsonOutput { packs, operator_factories: ops, preconditioner_factories: pcs, solver_factories: slvs }
}

/// The text of a listed factory line.
pub open spec fn factory_line_text(f: FactoryLine) -> Seq<char> {
    "  "@ + f.0 + " (pack="@ + f.1 + ") keys=["@ + f.2 + "]\n"@
}

proof fn lemma_factory_lines_flatten(fs: Seq<FactoryLine>)
    ensures
        factory_lines(fs) == fs.map_values(|f: FactoryLine| factory_line_text(f)).flatten(),
    decreases fs.len(),
{
    let ts = fs.map_values(|f: FactoryLine| factory_line_text(f));
    ts.lemma_flatten_and_flatten_alt_are_equivalent();
    lemma_factory_lines_flatten_alt(fs);
}

proof fn lemma_factory_lines_flatten_alt(fs: Seq<FactoryLine>)
    ensures
        factory_lines(fs) == fs.map_values(|f: FactoryLine| factory_line_text(f)).flatten_alt(),
    decreases fs.len(),
{
    if fs.len() > 0 {
        lemma_factory_lines_flatten_alt(fs.drop_last());
        let ts = fs.map_values(|f: FactoryLine| factory_line_text(f));
        assert(ts.drop_last() =~= fs.drop_last().map_values(|f: FactoryLine| factory_line_text(f)));
        assert(factory_lines(fs) =~= factory_lines(fs.drop_last()) + factory_line_text(fs.last()));
    } else {
        assert(fs.map_values(|f: FactoryLine| factory_line_text(f)) =~= Seq::<Seq<char>>::empty());
    }
}

/// The operator section of a listing.
pub open spec fn operator_section_text(r: MethodRegistry) -> Seq<char> {
    if r.operator_entries().len() == 0 {
        Seq::empty()
    } else {
        "\n"@ + "Registered operator factories:"@ + "\n"@ + r.operator_entries().map_values(
            |e: (Seq<char>, OperatorFactory)| "  "@ + e.1.name@ + " (pack="@ + e.0 + ") keys=["@ + join(
                operator_key_views(e.1).map_values(|x| operator_key_summary(x)), ", "@) + "]\n"@,
        ).flatten()
    }
}

/// The preconditioner section of a listing.
pub open spec fn preconditioner_section_text(r: MethodRegistry) -> Seq<char> {
    if r.preconditioner_entries().len() == 0 {
        Seq::empty()
    } else {
        "\n"@ + "Registered preconditioner factories:"@ + "\n"@ + r.preconditioner_entries().map_values(
            |e: (Seq<char>, PreconditionerFactory)| "  "@ + e.1.name@ + " (pack="@ + e.0 + ") keys=["@ + join(
                preconditioner_key_views(e.1).map_values(|x| preconditioner_key_summary(x)), ", "@) + "]\n"@,
        ).flatten()
    }
}

/// The solver section of a listing.
pub open spec fn solver_section_text(r: MethodRegistry) -> Seq<char> {
    if r.solver_entries().len() == 0 {
        Seq::empty()
    } else {
        "\n"@ + "Registered solver factories:"@ + "\n"@ + r.solver_entries().map_values(
            |e: (Seq<char>, SolverFactory)| "  "@ + e.1.name@ + " (pack="@ + e.0 + ") keys=["@ + join(
                solver_key_views(e.1).map_values(|x| solver_key_summary(x)), ", "@) + "]\n"@,
        ).flatten()
    }
}

proof fn lemma_operator_section(r: MethodRegistry)
    ensures
        factory_section(
            "Registered operator factories:"@,
            r.operator_entries().map_values(|e: (Seq<char>, OperatorFactory)| operator_line(e)),
        ) == operator_section_text(r),
{
    let ol = r.operator_entries().map_values(|e: (Seq<char>, OperatorFactory)| operator_line(e));
    lemma_factory_lines_flatten(ol);
    assert(ol.map_values(|f: FactoryLine| factory_line_text(f)) =~= r.operator_entries().map_values(
        |e: (Seq<char>, OperatorFactory)| "  "@ + e.1.name@ + " (pack="@ + e.0 + ") keys=["@ + join(
            operator_key_views(e.1).map_values(|x| operator_key_summary(x)), ", "@) + "]\n"@,
    ));
}

proof fn lemma_preconditioner_section(r: MethodRegistry)
    ensures
        factory_section(
            "Registered preconditioner factories:"@,
            r.preconditioner_entries().map_values(|e: (Seq<char>, PreconditionerFactory)| preconditioner_line(e)),
        ) == preconditioner_section_text(r),
{
    let pl = r.preconditioner_entries().map_values(|e: (Seq<char>, PreconditionerFactory)| preconditioner_line(e));
    lemma_factory_lines_flatten(pl);
    assert(pl.map_values(|f: FactoryLine| factory_line_text(f)) =~= r.preconditioner_entries().map_values(
        |e: (Seq<char>, PreconditionerFactory)| "  "@ + e.1.name@ + " (pack="@ + e.0 + ") keys=["@ + join(
            preconditioner_key_views(e.1).map_values(|x| preconditioner_key_summary(x)), ", "@) + "]\n"@,
    ));
}

proof fn lemma_solver_section(r: MethodRegistry)
    ensures
        factory_section(
            "Registered solver factories:"@,
            r.solver_entries().map_values(|e: (Seq<char>, SolverFactory)| solver_line(e)),
        ) == solver_section_text(r),
{
    let sl = r.solver_entries().map_values(|e: (Seq<char>, SolverFactory)| solver_line(e));
    lemma_factory_lines_flatten(sl);
    assert(sl.map_values(|f: FactoryLine| factory_line_text(f)) =~= r.solver_entries().map_values(
        |e: (Seq<char>, SolverFactory)| "  "@ + e.1.name@ + " (pack="@ + e.0 + ") keys=["@ + join(
            solver_key_views(e.1).map_values(|x| solver_key_summary(x)), ", "@) + "]\n"@,
    ));
}

proof fn lemma_prefix_of_concat(a: Seq<char>, b: Seq<char>)
    ensures
        a.is_prefix_of(a + b),
{
    assert((a + b).subrange(0, a.len() as int) =~= a);
}

/// When packs are listed, the listing ends with three sections, in this
/// order: the operator factories, the preconditioner factories and the
/// solver factories. A section holds its title line and then one line per
/// registered factory, in registration order, giving its name, its pack and
/// the summaries of its keys; a kind with no registered factory has no
/// section.
pub proof fn lemma_listing_factory_sections(r: MethodRegistry)
    ensures
        listed_pack_infos().len() > 0 ==> exists|head: Seq<char>| {
            &&& "Discovered packs:\n"@.is_prefix_of(head)
            &&& list_text(r) == head + operator_section_text(r) + preconditioner_section_text(r) + solver_section_text(r)
        },
{
    if listed_pack_infos().len() > 0 {
        let ps = listed_pack_infos();
        let bs = r.builder_entries().map_values(|e: (Seq<char>, ProblemBuilder)| builder_line(e));
        let head = "Discovered packs:\n"@ + pack_lines(ps) + (if bs.len() == 0 {
            Seq::empty()
        } else {
            "\nRegistered builders:\n"@ + builder_lines(bs)
        });
        lemma_operator_section(r);
        lemma_preconditioner_section(r);
        lemma_solver_section(r);
        lemma_prefix_of_concat("Discovered packs:\n"@, pack_lines(ps) + (if bs.len() == 0 {
            Seq::empty()
        } else {
            "\nRegistered builders:\n"@ + builder_lines(bs)
        }));
        assert(head == "Discovered packs:\n"@ + (pack_lines(ps) + (if bs.len() == 0 {
            Seq::empty()
        } else {
            "\nRegistered builders:\n"@ + builder_lines(bs)
        })));
        assert(list_text(r) == head + operator_section_text(r) + preconditioner_section_text(r) + solver_section_text(r));
    }
}

} // verus!
