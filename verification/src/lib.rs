//! A read-only nutrition dataset cache: foods, their nutrient measurements,
//! and the lookups a request layer needs, all answered from memory.

use vstd::prelude::*;
use vstd::string::StringExecFns;

pub mod cache;
pub mod cors;
pub mod data;
pub mod models;

verus! {

/// The version of this package, as a sequence of characters.
pub open spec fn version_text() -> Seq<char> {
    "0.1.0"@
}

/// Returns the version of this package.
pub fn get_version() -> (version: String)
    ensures
        version@ == version_text(),
{
    "0.1.0".to_owned()
}

/// The text of the landing page: a greeting, the version, and the paths that
/// the service answers, one per line.
pub open spec fn index_text() -> Seq<char> {
    "Ready to serve!\n"@ + version_text() + "\n\n/ip\n/food\n/food/<id>\n/food/<id>/nutrients\n"@
}

/// Returns the text of the landing page.
pub fn index() -> (page: String)
    ensures
        page@ == index_text(),
{
    let mut page = "Ready to serve!\n".to_owned();
    page.append(get_version().as_str());
    page.append("\n\n/ip\n/food\n/food/<id>\n/food/<id>/nutrients\n");
    page
}

} // verus!
