use vstd::prelude::*;
use vstd::string::StringExecFns;
use crate::text::{chars_of, has_prefix, has_suffix, occurs_at_exec, string_of};

verus! {

/// The extension that a list file declares itself by.
pub const LIST_EXTENSION: &'static str = ".txt";

/// The marker that opens a managed-list identifier.
pub const MANAGED_LIST_MARKER: &'static str = "@";

/// The prefix of a remote list's address.
pub const REMOTE_PREFIX: &'static str = "http";

/// Where a run's list comes from.
#[derive(Debug)]
pub enum RunTarget {
    LocalPath(String),
    RemoteUrl(String),
    /// A managed list, by its identifier without the marker.
    ManagedList(String),
}

/// Tells a run target apart: a managed list by its marker, a remote list by
/// its scheme, and a local file otherwise.
pub fn parse_run_target(run: &str) -> (r: RunTarget)
    ensures
        match r {
            RunTarget::ManagedList(id) => has_prefix(run@, MANAGED_LIST_MARKER@) && id@ == run@.subrange(
                MANAGED_LIST_MARKER@.len() as int,
                run@.len() as int,
            ),
            RunTarget::RemoteUrl(u) => !has_prefix(run@, MANAGED_LIST_MARKER@) && has_prefix(
                run@,
                REMOTE_PREFIX@,
            ) && u@ == run@,
            RunTarget::LocalPath(p) => !has_prefix(run@, MANAGED_LIST_MARKER@) && !has_prefix(
                run@,
                REMOTE_PREFIX@,
            ) && p@ == run@,
        },
{
    let rc = chars_of(run);
    let marker = chars_of(MANAGED_LIST_MARKER);
    if occurs_at_exec(&rc, &marker, 0) {
        RunTarget::ManagedList(string_of(&rc, marker.len(), rc.len()))
    } else if occurs_at_exec(&rc, &chars_of(REMOTE_PREFIX), 0) {
        RunTarget::RemoteUrl(String::from_str(run))
    } else {
        RunTarget::LocalPath(String::from_str(run))
    }
}

/// Whether a list's name or address declares the list format.
pub fn has_list_extension(run: &str) -> (r: bool)
    ensures
        r == has_suffix(run@, LIST_EXTENSION@),
{
    let rc = chars_of(run);
    let ext = chars_of(LIST_EXTENSION);
    if ext.len() > rc.len() {
        return false;
    }
    occurs_at_exec(&rc, &ext, rc.len() - ext.len())
}

/// What becomes of a README once rendered.
#[derive(Debug)]
pub struct RenderPlan {
    /// The markdown file it was rendered from.
    pub source: String,
    /// The rendered page.
    pub html: String,
    /// Whether the saved page is opened in the browser.
    pub open_in_browser: bool,
}

/// Renders README files into saved pages.
pub struct PrimeDownRender;

impl PrimeDownRender {
    /// Given what rendering `file` gave, says what is saved and whether it is
    /// opened: nothing at all where rendering gave nothing.
    pub fn render_and_save_file(file: &str, no_open_link: bool, markdown_html: Option<String>) -> (r: Option<RenderPlan>)
        ensures
            match markdown_html {
                None => r is None,
                Some(h) => r is Some && r->0.source@ == file@ && r->0.html@ == h@
                    && r->0.open_in_browser == !no_open_link,
            },
    {
        match markdown_html {
            Some(html) => Some(
                RenderPlan { source: String::from_str(file), html, open_in_browser: !no_open_link },
            ),
            None => None,
        }
    }
}

} // verus!
