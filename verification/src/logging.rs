//! Log output formats.
use vstd::prelude::*;
use crate::text::chars_eq;

verus! {

#[derive(Debug, Clone, Copy, PartialEq, Eq, Structural)]
pub enum LogFormat {
    Pretty,
    Json,
}

/// The format named on the command line: "json", anything else pretty.
pub fn log_format_from(name: &str) -> (r: LogFormat)
    ensures
        r == if name@ == "json"@ { LogFormat::Json } else { LogFormat::Pretty },
{
    let n = crate::text::chars_of(name);
    let j = crate::text::chars_of("json");
    if chars_eq(n.as_slice(), j.as_slice()) {
        LogFormat::Json
    } else {
        LogFormat::Pretty
    }
}

} // verus!
