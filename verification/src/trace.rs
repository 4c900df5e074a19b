//! The log filter of the harness.

use vstd::prelude::*;

verus! {

/// Sets up what the harness logs.
#[derive(Debug, Clone, Copy, PartialEq, Eq, Structural)]
pub struct Trace;

impl Trace {
    /// The filter that is used where the environment gives none: the crate
    /// itself and the frontend build tool at one level.
    pub open spec fn filter_of(crate_name: Seq<char>, debug_build: bool) -> Seq<char> {
        if debug_build {
            crate_name + "=debug,cargo_leptos=debug"@
        } else {
            crate_name + "=info,cargo_leptos=info"@
        }
    }

    /// The filter for the crate of the given name: debug level in a debug
    /// build, info level else.
    pub fn base_filter(crate_name: &str, debug_build: bool) -> (filter: String)
        ensures
            filter@ == Trace::filter_of(crate_name@, debug_build),
    {
        let mut filter = crate_name.to_owned();
        if debug_build {
            filter.append("=debug,cargo_leptos=debug");
        } else {
            filter.append("=info,cargo_leptos=info");
        }
        filter
    }
}

} // verus!
