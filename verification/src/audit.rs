//! Audit of a case specification against a capability registry.
//!
//! The audit validates a case, compiles it into the capabilities it
//! requires and compares them with what a registry has available. The
//! report lists capability names in lexicographic order.

use vstd::prelude::*;
use crate::capability::{label, Capability, CapabilityRegistry, CapabilitySet};
use crate::error::SpinozaError;
use crate::spec::{requires_capability, validation_error, CaseSpec, CompiledPlan};
use crate::text::{is_stably_sorted, lex_lt, push_str, sorted_indices, stable_order_by_key, views};

verus! {

/// A structured report produced by the audit workflow.
#[derive(Debug, Clone)]
pub struct AuditReport {
    pub problem_name: String,
    pub required: CapabilitySet,
    pub missing: CapabilitySet,
}

/// Whether `s` is the label of a member of `caps`.
pub open spec fn label_in(caps: Set<Capability>, s: Seq<char>) -> bool {
    exists|c: Capability| caps.contains(c) && #[trigger] label(c) == s
}

/// The labels of capabilities in declaration order.
pub open spec fn labels_of(caps: Seq<Capability>) -> Seq<Seq<char>> {
    caps.map_values(|c: Capability| label(c))
}

/// The labels of a set of capabilities in lexicographic order (a stable
/// sort of the labels taken in declaration order).
pub open spec fn sorted_labels(caps: CapabilitySet) -> Seq<Seq<char>> {
    let ls = labels_of(caps.to_seq());
    sorted_indices(ls, ls.len()).map_values(|i: usize| ls[i as int])
}

/// One indented line per name.
pub open spec fn indented_lines(names: Seq<Seq<char>>) -> Seq<char>
    decreases names.len(),
{
    if names.len() == 0 {
        Seq::empty()
    } else {
        indented_lines(names.drop_last()) + "  "@ + names.last() + "\n"@
    }
}

/// The text of a rendered report.
pub open spec fn report_text(r: AuditReport) -> Seq<char> {
    "Problem: "@ + r.problem_name@ + "\n"@ + "Required capabilities:\n"@ + indented_lines(sorted_labels(r.required))
        + if r.missing@ == Set::<Capability>::empty() {
        "All capabilities available.\n"@
    } else {
        "Missing capabilities:\n"@ + indented_lines(sorted_labels(r.missing))
    }
}

fn push_indented(out: &mut String, names: &Vec<String>)
    ensures
        final(out)@ == old(out)@ + indented_lines(views(names@)),
{
    let ghost start = out@;
    let ghost ns = views(names@);
    let n = names.len();
    let mut i: usize = 0;
    while i < n
        invariant
            n == names@.len(),
            ns == views(names@),
            i <= n,
            out@ == start + indented_lines(ns.take(i as int)),
        decreases n - i,
    {
        assert(ns.take(i + 1).drop_last() =~= ns.take(i as int));
        push_str(out, "  ");
        push_str(out, names[i].as_str());
        push_str(out, "\n");
        assert(out@ =~= start + indented_lines(ns.take(i + 1)));
        i = i + 1;
    }
    assert(ns.take(n as int) =~= ns);
}

impl AuditReport {
    /// The labels of `caps`, sorted lexicographically.
    fn sorted_capability_names(caps: &CapabilitySet) -> (v: Vec<String>)
        ensures
            views(v@) == sorted_labels(*caps),
            v@.len() == caps.to_seq().len(),
            forall|p: int, q: int| 0 <= p < q < v@.len() ==> !lex_lt(#[trigger] v@[q]@, #[trigger] v@[p]@),
            forall|c: Capability| caps@.contains(c) ==> #[trigger] views(v@).contains(label(c)),
            forall|p: int| 0 <= p < v@.len() ==> label_in(caps@, #[trigger] v@[p]@),
    {
        let members = caps.to_vec();
        let ghost ls = labels_of(members@);
        let mut labels: Vec<String> = Vec::new();
        let n = members.len();
        let mut i: usize = 0;
        while i < n
            invariant
                n == members@.len(),
                ls == labels_of(members@),
                i <= n,
                labels@.len() == i,
                forall|k: int| 0 <= k < i ==> (#[trigger] labels@[k])@ == ls[k],
            decreases n - i,
        {
            labels.push(members[i].to_label_string());
            i = i + 1;
        }
        assert(views(labels@) =~= ls);
        let order = stable_order_by_key(&labels);
        let mut v: Vec<String> = Vec::new();
        let mut k: usize = 0;
        while k < n
            invariant
                n == members@.len(),
                n == labels@.len(),
                ls == views(labels@),
                ls == labels_of(members@),
                order@ == sorted_indices(ls, n as nat),
                order@.len() == n,
                forall|p: int| 0 <= p < n ==> #[trigger] order@[p] < n,
                k <= n,
                v@.len() == k,
                forall|p: int| 0 <= p < k ==> (#[trigger] v@[p])@ == ls[order@[p] as int],
            decreases n - k,
        {
            let j = order[k];
            v.push(labels[j].clone());
            k = k + 1;
        }
        let ghost sorted = sorted_indices(ls, ls.len()).map_values(|i: usize| ls[i as int]);
        assert(views(v@) =~= sorted);
        proof {
            assert forall|p: int, q: int| 0 <= p < q < v@.len() implies !lex_lt(#[trigger] v@[q]@, #[trigger] v@[p]@) by {
                assert(is_stably_sorted(ls, order@));
                assert(!lex_lt(ls[order@[q] as int], ls[order@[p] as int]));
            }
            assert forall|c: Capability| caps@.contains(c) implies #[trigger] views(v@).contains(label(c)) by {
                assert(members@.contains(c));
                let m = choose|m: int| 0 <= m < members@.len() && members@[m] == c;
                assert(ls[m] == label(c));
                let mu = m as usize;
                assert(order@.contains(mu));
                let p = choose|p: int| 0 <= p < order@.len() && order@[p] == mu;
                assert(views(v@)[p] == label(c));
            }
            assert forall|p: int| 0 <= p < v@.len() implies label_in(caps@, #[trigger] v@[p]@) by {
                let m = order@[p] as int;
                let c = members@[m];
                assert(members@.contains(c));
                assert(v@[p]@ == label(c));
            }
        }
        v
    }

    /// Returns `true` when every required capability is available.
    pub fn is_ok(&self) -> (b: bool)
        ensures
            b == (self.missing@ == Set::<Capability>::empty()),
    {
        self.missing.is_empty()
    }

    /// The names of the required capabilities, sorted lexicographically.
    pub fn sorted_required_capability_names(&self) -> (v: Vec<String>)
        ensures
            views(v@) == sorted_labels(self.required),
            forall|p: int, q: int| 0 <= p < q < v@.len() ==> !lex_lt(#[trigger] v@[q]@, #[trigger] v@[p]@),
            forall|c: Capability| self.required@.contains(c) ==> #[trigger] views(v@).contains(label(c)),
            forall|p: int| 0 <= p < v@.len() ==> label_in(self.required@, #[trigger] v@[p]@),
    {
        Self::sorted_capability_names(&self.required)
    }

    /// The names of the missing capabilities, sorted lexicographically.
    pub fn sorted_missing_capability_names(&self) -> (v: Vec<String>)
        ensures
            views(v@) == sorted_labels(self.missing),
            forall|p: int, q: int| 0 <= p < q < v@.len() ==> !lex_lt(#[trigger] v@[q]@, #[trigger] v@[p]@),
            forall|c: Capability| self.missing@.contains(c) ==> #[trigger] views(v@).contains(label(c)),
            forall|p: int| 0 <= p < v@.len() ==> label_in(self.missing@, #[trigger] v@[p]@),
    {
        Self::sorted_capability_names(&self.missing)
    }

    /// Render the report as a human readable string.
    pub fn render(&self) -> (s: String)
        ensures
            s@ == report_text(*self),
    {
        let mut out = String::new();
        push_str(&mut out, "Problem: ");
        push_str(&mut out, self.problem_name.as_str());
        push_str(&mut out, "\n");
        push_str(&mut out, "Required capabilities:\n");
        let req = self.sorted_required_capability_names();
        push_indented(&mut out, &req);
        if self.missing.is_empty() {
            push_str(&mut out, "All capabilities available.\n");
        } else {
            push_str(&mut out, "Missing capabilities:\n");
            let miss = self.sorted_missing_capability_names();
            push_indented(&mut out, &miss);
        }
        out
    }
}

/// The outcome of an audit: every required capability available
/// (`Passed`), some missing, or a case that failed validation.
#[derive(Debug, Clone, Copy, PartialEq, Eq, Structural)]
pub enum AuditStatus {
    Passed,
    MissingCapabilities,
    ValidationError,
}

/// The machine readable form of an audit's outcome.
#[derive(Debug, Clone)]
pub struct AuditJsonOutput {
    pub problem_name: String,
    pub case_path: String,
    pub required_capabilities: Vec<String>,
    pub missing_capabilities: Vec<String>,
    pub status: AuditStatus,
    pub exit_code: i32,
    pub validation_errors: Vec<String>,
}

impl AuditJsonOutput {
    /// The output for an audit that produced a report: status `Passed` with
    /// exit code 0 when nothing is missing, else `MissingCapabilities`
    /// with exit code 1.
    pub fn from_success(path: &str, report: &AuditReport) -> (o: AuditJsonOutput)
        ensures
            o.problem_name@ == report.problem_name@,
            o.case_path@ == path@,
            views(o.required_capabilities@) == sorted_labels(report.required),
            views(o.missing_capabilities@) == sorted_labels(report.missing),
            report.missing@ == Set::<Capability>::empty() ==> o.status == AuditStatus::Passed && o.exit_code == 0,
            report.missing@ != Set::<Capability>::empty() ==> o.status == AuditStatus::MissingCapabilities
                && o.exit_code == 1,
            o.validation_errors@.len() == 0,
    {
        let ok = report.is_ok();
        let status = if ok { AuditStatus::Passed } else { AuditStatus::MissingCapabilities };
        let exit_code: i32 = if ok { 0 } else { 1 };
        AuditJsonOutput {
            problem_name: report.problem_name.clone(),
            case_path: String::from_str(path),
            required_capabilities: report.sorted_required_capability_names(),
            missing_capabilities: report.sorted_missing_capability_names(),
            status,
            exit_code,
            validation_errors: Vec::new(),
        }
    }

    /// The output for a case that could not be read or validated: status
    /// `ValidationError`, exit code 2 and the message as the only error.
    pub fn from_validation_error(path: &str, message: String) -> (o: AuditJsonOutput)
        ensures
            o.problem_name@ == Seq::<char>::empty(),
            o.case_path@ == path@,
            o.required_capabilities@.len() == 0,
            o.missing_capabilities@.len() == 0,
            o.status == AuditStatus::ValidationError,
            o.exit_code == 2,
            views(o.validation_errors@) == seq![message@],
    {
        let mut errors: Vec<String> = Vec::new();
        let ghost m = message@;
        errors.push(message);
        assert(views(errors@) =~= seq![m]);
        AuditJsonOutput {
            problem_name: String::new(),
            case_path: String::from_str(path),
            required_capabilities: Vec::new(),
            missing_capabilities: Vec::new(),
            status: AuditStatus::ValidationError,
            exit_code: 2,
            validation_errors: errors,
        }
    }
}

/// Audit a parsed case against a registry: validate it, compile it into
/// its required capabilities and list those the registry lacks.
pub fn audit_spec(spec: &CaseSpec, registry: &CapabilityRegistry) -> (r: Result<AuditReport, SpinozaError>)
    ensures
        r is Ok <==> validation_error(*spec) is None,
        r matches Err(e) ==> (e matches SpinozaError::ValidationError(m) && Some(m@) == validation_error(*spec)),
        r matches Ok(report) ==> {
            &&& report.problem_name@ == spec.problem.name@
            &&& forall|c: Capability| #[trigger] report.required@.contains(c) <==> requires_capability(*spec, c)
            &&& report.missing@ == report.required@.difference(registry@)
        },
{
    match spec.validate() {
        Err(e) => Err(e),
        Ok(()) => {
            let plan = CompiledPlan::from_spec(spec);
            let missing = registry.missing(&plan.required);
            Ok(AuditReport { problem_name: plan.problem_name, required: plan.required, missing })
        },
    }
}

} // verus!
