//! Settings that the process reads from its environment.

use vstd::prelude::*;
use vstd::string::*;

verus! {

/// The log filter that applies where the environment names none.
pub const DEFAULT_LOG_FILTER: &'static str =
    "axum_single_page_application_example=debug,tower_http=debug";

/// The log filter to start with: the one that the environment names, or
/// the default where it names none.
pub fn log_filter(configured: Option<String>) -> (r: String)
    ensures
        r@ == match configured {
            Some(filter) => filter@,
            None => DEFAULT_LOG_FILTER@,
        },
{
    match configured {
        Some(filter) => filter,
        None => DEFAULT_LOG_FILTER.to_owned(),
    }
}

} // verus!
