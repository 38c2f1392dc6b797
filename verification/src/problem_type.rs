//! Registry of problem classes: the `type` member of a Problem Details body.
use vstd::prelude::*;

verus! {

pub const INVALID_REQUEST: &'static str = "urn:bangumi-rss:problems:invalid-request";

pub const INVALID_FILTER: &'static str = "urn:bangumi-rss:problems:invalid-filter";

pub const UNAUTHORIZED: &'static str = "urn:bangumi-rss:problems:unauthorized";

pub const NOT_FOUND: &'static str = "urn:bangumi-rss:problems:not-found";

pub const METHOD_NOT_ALLOWED: &'static str = "urn:bangumi-rss:problems:method-not-allowed";

pub const RANGE_NOT_SATISFIABLE: &'static str = "urn:bangumi-rss:problems:range-not-satisfiable";

pub const INTERNAL: &'static str = "urn:bangumi-rss:problems:internal";

pub const UPSTREAM_ERROR: &'static str = "urn:bangumi-rss:problems:upstream-error";

pub const SERVICE_UNAVAILABLE: &'static str = "urn:bangumi-rss:problems:service-unavailable";

} // verus!
