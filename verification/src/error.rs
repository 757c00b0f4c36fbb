//! Common error type.

use vstd::prelude::*;
use crate::capability::{label, CapabilitySet};
use crate::text::{join, push_str};

verus! {

/// Errors that can occur during spec validation or capability auditing.
#[derive(Debug, Clone)]
pub enum SpinozaError {
    /// The case spec file could not be parsed.
    ParseError(String),
    /// The case spec was syntactically valid but holds values that violate
    /// the schema (unknown equation type, bad dimension, etc.).
    ValidationError(String),
    /// One or more required capabilities are not yet implemented.
    MissingCapabilities(CapabilitySet),
    /// A linear operator related error.
    OperatorError(String),
}

/// The labels of a set of capabilities, in declaration order, separated
/// by ", ".
pub open spec fn caps_text(caps: CapabilitySet) -> Seq<char> {
    join(caps.to_seq().map_values(|c| label(c)), ", "@)
}

/// The message an error displays.
pub open spec fn error_message(e: SpinozaError) -> Seq<char> {
    match e {
        SpinozaError::ParseError(m) => "failed to parse case spec: "@ + m@,
        SpinozaError::ValidationError(m) => "validation error: "@ + m@,
        SpinozaError::MissingCapabilities(caps) => "missing capabilities: "@ + caps_text(caps),
        SpinozaError::OperatorError(m) => "operator error: "@ + m@,
    }
}

/// The labels of a set of capabilities, in declaration order, separated
/// by ", ".
pub fn format_caps(caps: &CapabilitySet) -> (s: String)
    ensures
        s@ == caps_text(*caps),
{
    let v = caps.to_vec();
    let mut out = String::new();
    let n = v.len();
    let ghost labels = v@.map_values(|c| label(c));
    let mut i: usize = 0;
    while i < n
        invariant
            n == v@.len(),
            i <= n,
            labels == v@.map_values(|c| label(c)),
            out@ == join(labels.take(i as int), ", "@),
        decreases n - i,
    {
        assert(labels.take(i + 1).drop_last() =~= labels.take(i as int));
        if i > 0 {
            push_str(&mut out, ", ");
        } else {
            assert(labels.take(1) =~= seq![label(v@[0])]);
        }
        push_str(&mut out, v[i].label());
        if i == 0 {
            assert(out@ =~= label(v@[0]));
        }
        i = i + 1;
    }
    assert(labels.take(n as int) =~= labels);
    out
}

impl SpinozaError {
    /// The message this error displays.
    pub fn message(&self) -> (s: String)
        ensures
            s@ == error_message(*self),
    {
        let mut out = String::new();
        match self {
            SpinozaError::ParseError(m) => {
                push_str(&mut out, "failed to parse case spec: ");
                push_str(&mut out, m.as_str());
            },
            SpinozaError::ValidationError(m) => {
                push_str(&mut out, "validation error: ");
                push_str(&mut out, m.as_str());
            },
            SpinozaError::MissingCapabilities(caps) => {
                push_str(&mut out, "missing capabilities: ");
                let t = format_caps(caps);
                push_str(&mut out, t.as_str());
            },
            SpinozaError::OperatorError(m) => {
                push_str(&mut out, "operator error: ");
                push_str(&mut out, m.as_str());
            },
        }
        out
    }
}

} // verus!
