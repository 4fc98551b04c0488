use paimon_list::{
    Action, ApiError, ApiGetList, ListOutcome, ListReader, PrimeDownRender, ReadList, RunOptions,
};

fn options(no_open_link: bool, kindle: Option<&str>) -> RunOptions {
    RunOptions {
        no_ignore: true,
        no_comments: false,
        no_open_link,
        kindle: kindle.map(|k| k.to_string()),
    }
}

fn lines(v: &[&str]) -> Vec<String> {
    v.iter().map(|s| s.to_string()).collect()
}

#[test]
fn directory_is_created_once_before_first_download() {
    let acts = ReadList::read_lines(
        &lines(&["example text", "https://arxiv.org/abs/1234.5678", "https://example.com/paper"]),
        options(false, None),
    );
    assert_eq!(acts.len(), 4);
    assert!(matches!(&acts[0], Action::CreateDir(d) if d == "example text"));
    assert!(matches!(&acts[1], Action::Download { dir, .. } if dir == "example text"));
    assert!(matches!(&acts[2], Action::Download { url, dir, no_ignore: true, no_comments: false }
        if url == "https://raw.githubusercontent.com/arxiv/papers/main/1234.5678" && dir == "example text"));
    assert!(matches!(&acts[3], Action::Download { url, .. }
        if url == "https://api.kremilly.com/scrape?url=https://example.com/paper"));
    let creates = acts.iter().filter(|a| matches!(a, Action::CreateDir(_))).count();
    assert_eq!(creates, 1);
}

#[test]
fn open_link_before_content_does_not_set_directory() {
    let acts = ReadList::read_lines(
        &lines(&["!open_link https://example.com", "path books", "https://github.com/a/b"]),
        options(false, None),
    );
    assert_eq!(acts.len(), 4);
    assert!(matches!(&acts[0], Action::OpenInBrowser(u) if u == "https://example.com"));
    assert!(matches!(&acts[1], Action::CreateDir(d) if d == "books"));
    assert!(matches!(&acts[3], Action::Download { url, dir, .. } if url == "https://github.com/a/b" && dir == "books"));
}

#[test]
fn suppressed_open_link_does_nothing() {
    let mut reader = ListReader::new(options(true, None));
    let acts = reader.on_line("  !open_link https://example.com  ");
    assert!(acts.is_empty());
    assert!(reader.dir.is_none());
}

#[test]
fn delivery_follows_download() {
    let mut reader = ListReader::new(options(false, Some("me@kindle.com")));
    let first = reader.on_line("papers");
    assert_eq!(first.len(), 3);
    assert!(matches!(&first[2], Action::Deliver { address, dir, .. } if address == "me@kindle.com" && dir == "papers"));
    let second = reader.on_line("https://arxiv.org/abs/1");
    assert_eq!(second.len(), 2);
    assert!(matches!(&second[0], Action::Download { dir, .. } if dir == "papers"));
    assert_eq!(reader.dir.as_deref(), Some("papers"));
}

#[test]
fn message_body_is_returned_unchanged() {
    match ApiGetList::read_response(true, "{\"message\":\"pre-rendered list\"}") {
        Ok(ListOutcome::Rendered(m)) => assert_eq!(m, "pre-rendered list"),
        other => panic!("unexpected {:?}", other),
    }
}

#[test]
fn raw_body_is_read_line_by_line() {
    match ApiGetList::read_response(true, "first\nsecond\r\nthird\n") {
        Ok(ListOutcome::Lines(ls)) => assert_eq!(ls, vec!["first", "second", "third"]),
        other => panic!("unexpected {:?}", other),
    }
    match ApiGetList::read_response(true, "{\"other\":1}") {
        Ok(ListOutcome::Lines(ls)) => assert_eq!(ls, vec!["{\"other\":1}"]),
        other => panic!("unexpected {:?}", other),
    }
}

#[test]
fn server_message_on_failure_is_no_error() {
    match ApiGetList::read_response(false, "{\"message\":\"internal failure\"}") {
        Ok(ListOutcome::ServerMessage(m)) => assert_eq!(m, "internal failure"),
        other => panic!("unexpected {:?}", other),
    }
}

#[test]
fn empty_failure_body_is_internal_error() {
    let r = ApiGetList::read_response(false, "");
    assert!(matches!(r, Err(ApiError::InternalServerError)));
    assert_eq!(ApiError::InternalServerError.message(), "Error: internal server error");
}

#[test]
fn decide_takes_the_message_given() {
    let r = ApiGetList::decide(true, "ignored", Some("given".to_string()));
    assert!(matches!(r, Ok(ListOutcome::Rendered(m)) if m == "given"));
    let r = ApiGetList::decide(false, "x", None);
    assert!(matches!(r, Err(ApiError::InternalServerError)));
}

#[test]
fn list_url_strips_marker() {
    assert_eq!(ApiGetList::list_url("@abc"), "http://localhost/Ravenlib/api/lists/abc/raw");
    assert_eq!(ApiGetList::list_url("abc"), "http://localhost/Ravenlib/api/lists/abc/raw");
}

#[test]
fn render_plan_follows_rendering() {
    assert!(PrimeDownRender::render_and_save_file("README.md", false, None).is_none());
    let plan = PrimeDownRender::render_and_save_file("README.md", true, Some("<p>x</p>".to_string())).unwrap();
    assert_eq!(plan.source, "README.md");
    assert_eq!(plan.html, "<p>x</p>");
    assert!(!plan.open_in_browser);
}

#[test]
fn blank_first_line_establishes_the_empty_path_once() {
    let acts = ReadList::read_lines(&lines(&["   ", "later", "https://example.com/a"]), options(false, None));
    assert_eq!(acts.len(), 4);
    assert!(matches!(&acts[0], Action::CreateDir(d) if d.is_empty()));
    assert!(matches!(&acts[1], Action::Download { dir, .. } if dir.is_empty()));
    assert!(matches!(&acts[2], Action::Download { dir, .. } if dir.is_empty()));
    assert!(matches!(&acts[3], Action::Download { dir, .. } if dir.is_empty()));
}

#[test]
fn trimmed_line_is_taken_as_given() {
    let mut reader = ListReader::new(options(false, None));
    let acts = reader.on_trimmed_line("path books");
    assert_eq!(acts.len(), 2);
    assert!(matches!(&acts[0], Action::CreateDir(d) if d == "books"));
    assert_eq!(reader.dir.as_deref(), Some("books"));
}
