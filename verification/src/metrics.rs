//! The text served on the metrics endpoint.
use vstd::prelude::*;
use vstd::string::*;
use crate::text::concat2;

verus! {

/// Text of an encoding, or nothing when the encoding failed.
pub open spec fn text_or_empty(t: Option<String>) -> Seq<char> {
    match t {
        Some(s) => s@,
        None => Seq::empty(),
    }
}

/// A part of the metrics page is the encoded text itself, or nothing at all
/// when its encoding failed.
pub proof fn lemma_metrics_parts(s: String)
    ensures
        text_or_empty(Some(s)) == s@,
        text_or_empty(None) == Seq::<char>::empty(),
{
}

/// The metrics page: the service's own metrics followed by the process-wide
/// ones; a part whose encoding failed is left out.
pub fn metrics_body(custom: Option<String>, process: Option<String>) -> (body: String)
    ensures
        body@ == text_or_empty(custom) + text_or_empty(process),
{
    let a = match custom {
        Some(s) => s,
        None => String::new(),
    };
    let b = match process {
        Some(s) => s,
        None => String::new(),
    };
    concat2(a.as_str(), b.as_str())
}

} // verus!
