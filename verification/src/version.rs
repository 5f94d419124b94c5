//! Version lines as `herdr --version` prints them.

use vstd::prelude::*;

use crate::build_info::FULL_VERSION;
use crate::text;
use crate::text::trim_spec;

verus! {

/// Whether a line is `herdr <version>`, with at most a parenthesised suffix behind it.
pub open spec fn names_version(line: Seq<char>, version: Seq<char>) -> bool {
    let trimmed = trim_spec(line);
    let exact = "herdr "@ + version;
    let opened = exact + " ("@;
    ||| trimmed == exact
    ||| opened.is_prefix_of(trimmed) && ")"@.is_suffix_of(trimmed.skip(opened.len() as int))
}

/// Whether a version line names the version of this build.
pub fn version_line_matches_current(line: &str) -> (r: bool)
    ensures
        r == names_version(line@, FULL_VERSION@),
{
    version_line_matches_package(line, FULL_VERSION)
}

/// Whether a version line names this version.
pub fn version_line_matches_package(line: &str, package_version: &str) -> (r: bool)
    ensures
        r == names_version(line@, package_version@),
{
    let trimmed: &str = text::trim(line);
    let mut exact: String = "herdr ".to_owned();
    exact.append(package_version);
    if text::same(trimmed, exact.as_str()) {
        return true;
    }
    exact.append(" (");
    match text::strip_prefix(trimmed, exact.as_str()) {
        Some(suffix) => {
            assert(suffix@ =~= trimmed@.skip(exact@.len() as int));
            assert(trimmed@.subrange(0, exact@.len() as int) =~= exact@);
            text::ends_with(suffix, ")")
        },
        None => false,
    }
}

} // verus!
