//! Shared string constants used across the command line, the app and the webapp.

use vstd::prelude::*;

use crate::text::{join_spec, join_strs, strs_view};

verus! {

// -- Project ----------------------------------------------------------------

pub const PROJECT_URL: &'static str = "https://dkdc.io/bookmarks/";

// -- Placeholders ------------------------------------------------------------

pub const PH_URL_NAME: &'static str = "url name";

pub const PH_URL: &'static str = "https://...";

pub const PH_ALIAS: &'static str = "alias (optional)";

pub const PH_GROUP_NAME: &'static str = "group name";

pub const PH_GROUP_ENTRIES: &'static str = "url name, alias, ...";

pub const PH_FILTER: &'static str = "filter...";

// -- Error templates ---------------------------------------------------------

/// The message for group entries that name no url and no alias.
pub open spec fn group_entries_missing_message(missing: Seq<Seq<char>>) -> Seq<char> {
    "group entries not found: "@ + join_spec(missing, ", "@)
}

/// Error message listing the group entries that could not be found.
pub fn err_group_entries_missing(missing: &[&str]) -> (r: String)
    ensures
        r@ == group_entries_missing_message(strs_view(missing@)),
{
    let mut out = String::from_str("group entries not found: ");
    let joined = join_strs(missing, ", ");
    out.append(joined.as_str());
    out
}

} // verus!
