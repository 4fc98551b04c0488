use vstd::prelude::*;
use vstd::string::StringExecFns;
use crate::text::{chars_of, has_prefix, occurs_at_exec, string_of, trimmed};

verus! {

/// The marker that opens a line asking for a link to be opened in the browser.
pub const OPEN_LINK_MARKER: &'static str = "!open_link";

/// The marker that may open the line naming the target directory.
pub const PATH_MARKER: &'static str = "path ";

/// A trimmed line is an open-link directive.
pub open spec fn is_open_link(t: Seq<char>) -> bool {
    has_prefix(t, OPEN_LINK_MARKER@)
}

/// The link that an open-link directive carries.
pub open spec fn open_link_target(t: Seq<char>) -> Seq<char> {
    trimmed(t.subrange(OPEN_LINK_MARKER@.len() as int, t.len() as int))
}

/// The target directory that a trimmed content line names: the text after
/// the path marker where there is one, else the whole line.
pub open spec fn derived_path(t: Seq<char>) -> Seq<char> {
    if has_prefix(t, PATH_MARKER@) {
        trimmed(t.subrange(PATH_MARKER@.len() as int, t.len() as int))
    } else {
        t
    }
}

/// Whether a trimmed line is an open-link directive.
pub fn check_open_link(t: &str) -> (r: bool)
    ensures
        r == is_open_link(t@),
{
    let tc = chars_of(t);
    let m = chars_of(OPEN_LINK_MARKER);
    occurs_at_exec(&tc, &m, 0)
}

/// The link of an open-link directive.
pub fn get_open_link(t: &str) -> (r: String)
    requires
        is_open_link(t@),
    ensures
        r@ == open_link_target(t@),
{
    let tc = chars_of(t);
    let m = chars_of(OPEN_LINK_MARKER);
    let rest = string_of(&tc, m.len(), tc.len());
    String::from_str(rest.as_str().trim())
}

/// The target directory that a trimmed content line names.
pub fn get_path(t: &str) -> (r: String)
    ensures
        r@ == derived_path(t@),
{
    let tc = chars_of(t);
    let m = chars_of(PATH_MARKER);
    if occurs_at_exec(&tc, &m, 0) {
        let rest = string_of(&tc, m.len(), tc.len());
        String::from_str(rest.as_str().trim())
    } else {
        String::from_str(t)
    }
}

} // verus!
