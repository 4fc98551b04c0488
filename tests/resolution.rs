use paimon_list::{
    check_open_link, get_open_link, get_path, has_list_extension, parse_run_target, resolve,
    split_lines, ProviderKind, RunTarget, Uris,
};

#[test]
fn arxiv_abstract_becomes_github_raw() {
    let r = resolve("https://arxiv.org/abs/1234.5678");
    assert_eq!(r.url, "https://raw.githubusercontent.com/arxiv/papers/main/1234.5678");
    assert_eq!(r.kind, ProviderKind::Arxiv);
    assert_eq!(r.line, "https://arxiv.org/abs/1234.5678");
}

#[test]
fn arxiv_result_resolves_to_itself() {
    let first = resolve("https://arxiv.org/abs/1234.5678");
    let second = resolve(&first.url);
    assert_eq!(second.url, first.url);
    assert_eq!(second.kind, ProviderKind::GitHub);
}

#[test]
fn github_blob_becomes_raw() {
    let r = resolve("https://github.com/kremilly/Paimon/blob/main/README.md");
    assert_eq!(r.url, "https://raw.githubusercontent.com/kremilly/Paimon/main/README.md");
    assert_eq!(r.kind, ProviderKind::GitHub);
    let again = resolve(&r.url);
    assert_eq!(again.url, r.url);
    assert_eq!(again.kind, ProviderKind::GitHub);
}

#[test]
fn github_without_blob_is_kept() {
    let r = resolve("https://github.com/kremilly/Paimon");
    assert_eq!(r.url, "https://github.com/kremilly/Paimon");
    assert_eq!(r.kind, ProviderKind::GitHub);
}

#[test]
fn wikipedia_article_becomes_pdf_export() {
    let r = resolve("https://en.wikipedia.org/wiki/Rust_(programming_language)");
    assert_eq!(
        r.url,
        "https://en.wikipedia.org/api/rest_v1/page/pdf/Rust_(programming_language)"
    );
    assert_eq!(r.kind, ProviderKind::Wikipedia);
    let again = resolve(&r.url);
    assert_eq!(again.url, r.url);
}

#[test]
fn wikisource_text_becomes_pdf_export() {
    let r = resolve("https://en.wikisource.org/wiki/Hamlet");
    assert_eq!(r.url, format!("{}Hamlet", Uris::WIKISOURCE_API_REQUEST_PDF));
    assert_eq!(r.kind, ProviderKind::Wikisource);
}

#[test]
fn scihub_is_kept() {
    let r = resolve("https://sci-hub.se/10.1000/xyz");
    assert_eq!(r.url, "https://sci-hub.se/10.1000/xyz");
    assert_eq!(r.kind, ProviderKind::SciHub);
}

#[test]
fn unknown_domain_goes_to_scrape_service() {
    let r = resolve("https://example.com/paper");
    assert_eq!(r.url, "https://api.kremilly.com/scrape?url=https://example.com/paper");
    assert_eq!(r.kind, ProviderKind::ScrapeFallback);
}

#[test]
fn lookalike_domain_is_not_a_provider() {
    let r = resolve("https://notgithub.com/a/blob/b");
    assert_eq!(r.kind, ProviderKind::ScrapeFallback);
    let sub = resolve("http://www.github.com/a/b/blob/c");
    assert_eq!(sub.url, "https://raw.githubusercontent.com/a/b/c");
}

#[test]
fn open_link_directive_is_recognised() {
    assert!(check_open_link("!open_link https://example.com"));
    assert!(!check_open_link("https://example.com !open_link"));
    assert_eq!(get_open_link("!open_link   https://example.com"), "https://example.com");
}

#[test]
fn path_is_derived_from_line() {
    assert_eq!(get_path("example text"), "example text");
    assert_eq!(get_path("path  books/papers "), "books/papers");
}

#[test]
fn run_targets_are_told_apart() {
    assert!(matches!(parse_run_target("@reading"), RunTarget::ManagedList(id) if id == "reading"));
    assert!(matches!(parse_run_target("https://x.org/l.txt"), RunTarget::RemoteUrl(u) if u == "https://x.org/l.txt"));
    assert!(matches!(parse_run_target("lists/l.txt"), RunTarget::LocalPath(p) if p == "lists/l.txt"));
}

#[test]
fn list_extension_is_checked() {
    assert!(has_list_extension("https://x.org/list.txt"));
    assert!(!has_list_extension("https://x.org/list.md"));
    assert!(!has_list_extension("txt"));
}

#[test]
fn lines_are_split_like_text_lines() {
    assert_eq!(split_lines(""), Vec::<String>::new());
    assert_eq!(split_lines("\n"), vec![""]);
    assert_eq!(split_lines("a\r\nb\n\nc"), vec!["a", "b", "", "c"]);
    assert_eq!(split_lines("a\r"), vec!["a\r"]);
    assert_eq!(split_lines("\r\n"), vec![""]);
}

#[test]
fn arxiv_pdf_link_is_kept() {
    let r = resolve("https://arxiv.org/pdf/1234.5678");
    assert_eq!(r.url, "https://arxiv.org/pdf/1234.5678");
    assert_eq!(r.kind, ProviderKind::Arxiv);
}
