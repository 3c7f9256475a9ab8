//! Identifiers of traces.
use vstd::prelude::*;
use crate::text::owned;

verus! {

/// Identifiers of traces, all zero for now.
pub struct Uuid;

impl Uuid {
    /// The nil identifier, in its hyphenated form.
    pub fn new_v4() -> (s: String)
        ensures
            s@ == "00000000-0000-0000-0000-000000000000"@,
    {
        owned("00000000-0000-0000-0000-000000000000")
    }
}

/// The identifier of a trace: `trace-` and the identifier.
pub fn trace_id() -> (s: String)
    ensures
        s@ == "trace-"@ + "00000000-0000-0000-0000-000000000000"@,
{
    let mut s = owned("trace-");
    s.append(Uuid::new_v4().as_str());
    s
}

} // verus!
