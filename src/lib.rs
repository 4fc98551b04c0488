//! Ingestion and resolution of reference lists: line directives, provider
//! URL rewriting, the managed-list response protocol and the per-line
//! download plan.

pub mod laws;
pub mod orchestrator;
pub mod providers;
pub mod remote;
pub mod source;
pub mod syntax;
pub mod text;
pub mod uris;

pub use laws::{
    lemma_arxiv_abstract_to_github_raw, lemma_arxiv_result_read_as_list,
    lemma_example_text_directory, lemma_github_raw_is_fixed, lemma_trim_keeps,
    lemma_directory_created_once, lemma_failure_outcomes, lemma_message_is_terminal,
    lemma_raw_body_is_read_by_lines, lemma_resolution_idempotent, lemma_run_in_order,
    lemma_suppressed_open_link, lemma_unknown_domain_is_scraped,
};
pub use orchestrator::{Action, ActionModel, ListReader, ReadList, RunOptions};
pub use providers::{resolve, ProviderKind, ResolvedEntry};
pub use remote::{ApiError, ApiGetList, ListOutcome, OutcomeModel};
pub use source::{
    has_list_extension, parse_run_target, PrimeDownRender, RenderPlan, RunTarget, LIST_EXTENSION,
    MANAGED_LIST_MARKER, REMOTE_PREFIX,
};
pub use syntax::{check_open_link, get_open_link, get_path, OPEN_LINK_MARKER, PATH_MARKER};
pub use text::{chars_of, split_lines, string_of};
pub use uris::Uris;
