use vstd::prelude::*;
use vstd::string::StringExecFns;
use crate::strutil::{spec_dec, u64_to_string};

verus! {

// Human-readable rendering of an elapsed time, in the largest fitting unit.

/// Whole seconds under a minute, whole minutes under an hour, else whole
/// hours, each with its unit letter.
pub open spec fn spec_format_duration(total_seconds: nat) -> Seq<char> {
    if total_seconds < 60 {
        spec_dec(total_seconds) + "s"@
    } else if total_seconds < 3600 {
        spec_dec(total_seconds / 60) + "m"@
    } else {
        spec_dec(total_seconds / 3600) + "h"@
    }
}

/// Renders a duration, given as whole seconds, in its largest fitting unit.
pub fn format_duration(total_seconds: u64) -> (r: String)
    ensures
        r@ == spec_format_duration(total_seconds as nat),
{
    if total_seconds < 60 {
        let mut out = u64_to_string(total_seconds);
        out.append("s");
        out
    } else if total_seconds < 3600 {
        let mut out = u64_to_string(total_seconds / 60);
        out.append("m");
        out
    } else {
        let mut out = u64_to_string(total_seconds / 3600);
        out.append("h");
        out
    }
}

} // verus!
