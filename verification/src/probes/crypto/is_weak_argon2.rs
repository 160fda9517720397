//! The `isWeakArgon2` probe.

use vstd::prelude::*;

use crate::probe::{spec_traces, spec_traces_in_own_module, traces, traces_in_own_module, view_traces, TraceRequest, opt_view, ProbeInfo};
use crate::probes::strings;
use crate::text::{str_eq, to_string, view_strings};

verus! {

/// The `isWeakArgon2` probe.
pub struct IsWeakArgon2;

impl IsWeakArgon2 {
    pub fn name(&self) -> (r: String)
        ensures
            r@ == "isWeakArgon2"@,
    {
        to_string("isWeakArgon2")
    }

    /// The ESTree node types the probe handles.
    pub fn node_types(&self) -> (r: Option<Vec<String>>)
        ensures
            match r {
                Some(v) => Some(view_strings(v@)),
                None => None::<Seq<Seq<char>>>,
            } == Some(seq!["CallExpression"@]),
    {
        Some(strings(&["CallExpression"]))
    }

    pub fn break_on_match(&self) -> (r: bool)
        ensures
            r == false,
    {
        false
    }

    pub fn break_group(&self) -> (r: Option<String>)
        ensures
            opt_view(r) == None::<Seq<char>>,
    {
        None
    }

    /// What the runner needs to know of the probe.
    pub fn info(&self) -> (r: ProbeInfo)
        ensures
            r.name@ == "isWeakArgon2"@,
            match r.node_types {
                Some(v) => Some(view_strings(v@)),
                None => None::<Seq<Seq<char>>>,
            } == Some(seq!["CallExpression"@]),
            r.break_on_match == false,
            opt_view(r.break_group) == None::<Seq<char>>,
    {
        ProbeInfo {
            name: self.name(),
            node_types: self.node_types(),
            break_on_match: self.break_on_match(),
            break_group: self.break_group(),
        }
    }
}

} // verus!

verus! {

/// The Argon2 parameter that is below the OWASP recommendations, if any:
/// the rows (memory in KiB, passes) are 47104/1, 19456/2, 12288/3, 9216/4
/// and 7168/5, and `argon2i` may only use the rows of 3 passes or more. The
/// row with the most passes that the passes reach applies: `passes` when
/// none does, else `memory` when the memory is under the row's.
pub open spec fn spec_find_weak_param(argon2i: bool, memory: int, passes: int) -> Option<Seq<char>> {
    let min_memory: Option<int> = if passes >= 5 {
        Some(7168)
    } else if passes >= 4 {
        Some(9216)
    } else if passes >= 3 {
        Some(12288)
    } else if passes >= 2 && !argon2i {
        Some(19456)
    } else if passes >= 1 && !argon2i {
        Some(47104)
    } else {
        None
    };
    match min_memory {
        None => Some("passes"@),
        Some(m) => if memory < m {
            Some("memory"@)
        } else {
            None
        },
    }
}

/// The Argon2 parameter below the OWASP recommendations, if any. Numbers
/// come truncated toward zero, which against these integer thresholds
/// compares as the numbers do.
pub fn find_weak_param(algorithm: Option<&str>, memory: i64, passes: i64) -> (r: Option<String>)
    ensures
        opt_view(r) == spec_find_weak_param(
            match algorithm {
                Some(a) => a@ == "argon2i"@,
                None => false,
            },
            memory as int,
            passes as int,
        ),
{
    let argon2i = match algorithm {
        Some(a) => str_eq(a, "argon2i"),
        None => false,
    };
    let min_memory: Option<i64> = if passes >= 5 {
        Some(7168)
    } else if passes >= 4 {
        Some(9216)
    } else if passes >= 3 {
        Some(12288)
    } else if passes >= 2 && !argon2i {
        Some(19456)
    } else if passes >= 1 && !argon2i {
        Some(47104)
    } else {
        None
    };
    match min_memory {
        None => Some(to_string("passes")),
        Some(m) => {
            if memory < m {
                Some(to_string("memory"))
            } else {
                None
            }
        },
    }
}

} // verus!

verus! {

impl IsWeakArgon2 {
    /// The names the probe asks the variable tracer to follow.
    pub fn initialize(&self) -> (r: Vec<TraceRequest>)
        ensures
            view_traces(r@) == spec_traces(seq!["crypto.argon2"@, "crypto.argon2Sync"@], false, Some("crypto"@)),
    {
        let mut r = traces(&["crypto.argon2", "crypto.argon2Sync"], false, Some("crypto"));
        proof {
            assert(view_traces(r@) =~= spec_traces(seq!["crypto.argon2"@, "crypto.argon2Sync"@], false, Some("crypto"@)));
        }
        r
    }
}

} // verus!
