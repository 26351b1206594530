//! How much the server says about its work.

use vstd::prelude::*;

verus! {

/// What is logged where nothing else is asked for: the server's own
/// messages and those of the HTTP layer, both from `debug` up.
pub const DEFAULT_FILTER: &'static str = "send_file_core=debug,tower_http=debug";

/// The filter to log by: the one that was asked for, where one was, and
/// the default where none was.
pub fn filter_directives(requested: Option<String>) -> (directives: String)
    ensures
        directives@ == match requested {
            Some(text) => text@,
            None => DEFAULT_FILTER@,
        },
{
    match requested {
        Some(text) => text,
        None => String::from_str(DEFAULT_FILTER),
    }
}

} // verus!
