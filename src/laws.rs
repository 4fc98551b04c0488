use vstd::prelude::*;
use crate::orchestrator::{run, step, ActionModel, RunOptions};
use crate::remote::{message_field, response_outcome, ApiError, OutcomeModel};
use crate::syntax::{derived_path, is_open_link, OPEN_LINK_MARKER, PATH_MARKER};
use crate::providers::{after_scheme, arxiv_source, host, in_domain, path, resolution, ProviderKind};
use crate::text::{
    find_from, has_prefix, has_suffix, index_from, is_white_space, lines_of, occurs_at, trimmed,
};
use crate::uris::Uris;

verus! {

/// A successful managed-list response whose body carries a `message`
/// string is that string and nothing else: no line of it is read.
pub proof fn lemma_message_is_terminal(body: Seq<char>)
    requires
        message_field(body) is Some,
    ensures
        response_outcome(true, body, message_field(body)) == Ok::<OutcomeModel, ApiError>(
            OutcomeModel::Rendered(message_field(body)->0),
        ),
{
}

/// A successful managed-list response without a `message` string is read
/// as the lines of its body.
pub proof fn lemma_raw_body_is_read_by_lines(body: Seq<char>)
    requires
        message_field(body) is None,
    ensures
        response_outcome(true, body, message_field(body)) == Ok::<OutcomeModel, ApiError>(
            OutcomeModel::Lines(lines_of(body)),
        ),
{
}

/// A failed managed-list response with a `message` string is shown and is
/// no error; one without is an internal server error.
pub proof fn lemma_failure_outcomes(body: Seq<char>)
    ensures
        message_field(body) is Some ==> response_outcome(false, body, message_field(body)) == Ok::<
            OutcomeModel,
            ApiError,
        >(OutcomeModel::ServerMessage(message_field(body)->0)),
        message_field(body) is None ==> response_outcome(false, body, message_field(body)) == Err::<
            OutcomeModel,
            ApiError,
        >(ApiError::InternalServerError),
{
}

/// Lines are read one at a time and in order: a run over `a` followed by
/// `b` is the run over `a`, then the run over `b` from where it left off.
pub proof fn lemma_run_in_order(
    dir: Option<Seq<char>>,
    o: RunOptions,
    a: Seq<Seq<char>>,
    b: Seq<Seq<char>>,
)
    ensures
        run(dir, o, a + b) == ({
            let first = run(dir, o, a);
            let second = run(first.0, o, b);
            (second.0, first.1 + second.1)
        }),
    decreases b.len(),
{
    if b.len() == 0 {
        assert(a + b =~= a);
        assert(run(dir, o, a).1 + Seq::<ActionModel>::empty() =~= run(dir, o, a).1);
    } else {
        assert((a + b).drop_last() =~= a + b.drop_last());
        assert((a + b).last() == b.last());
        lemma_run_in_order(dir, o, a, b.drop_last());
        let first = run(dir, o, a);
        let mid = run(first.0, o, b.drop_last());
        let last = step(mid.0, o, b.last());
        assert(first.1 + mid.1 + last.1 =~= first.1 + (mid.1 + last.1));
    }
}

/// An open-link line with browser opening suppressed does nothing: no
/// action, no download, and the directory stays as it was.
pub proof fn lemma_suppressed_open_link(dir: Option<Seq<char>>, o: RunOptions, line: Seq<char>)
    requires
        o.no_open_link,
        is_open_link(trimmed(line)),
    ensures
        step(dir, o, line) == (dir, Seq::<ActionModel>::empty()),
{
}

/// The directory that a list names: the path derived from its first line
/// that is no open-link directive, if it has one.
pub open spec fn established(lines: Seq<Seq<char>>) -> Option<Seq<char>>
    decreases lines.len(),
{
    if lines.len() == 0 {
        None
    } else {
        match established(lines.drop_last()) {
            Some(p) => Some(p),
            None => if is_open_link(trimmed(lines.last())) {
                None
            } else {
                Some(derived_path(trimmed(lines.last())))
            },
        }
    }
}

/// What a run from no directory has done with the target directory, with
/// `d` the directory at its end and `acts` its actions: without a directory,
/// no creation and no download; with one, exactly one creation of it, and
/// every download goes into it, after that creation.
pub open spec fn directory_discipline(d: Option<Seq<char>>, acts: Seq<ActionModel>) -> bool {
    match d {
        None => forall|i: int|
            0 <= i < acts.len() ==> !(#[trigger] acts[i] is CreateDir) && !(acts[i] is Download),
        Some(p) => exists|c: int|
            {
                &&& 0 <= c < acts.len()
                &&& #[trigger] acts[c] == ActionModel::CreateDir(p)
                &&& forall|i: int| 0 <= i < acts.len() && #[trigger] acts[i] is CreateDir ==> i == c
                &&& forall|i: int|
                    0 <= i < acts.len() && #[trigger] acts[i] is Download ==> c < i
                        && acts[i]->Download_1 == p
            },
    }
}

/// A run over a list derives its target directory once, from its first
/// line that is no open-link directive, creates it exactly once, and
/// downloads every entry into it after that.
pub proof fn lemma_directory_created_once(o: RunOptions, lines: Seq<Seq<char>>)
    ensures
        run(None, o, lines).0 == established(lines),
        directory_discipline(run(None, o, lines).0, run(None, o, lines).1),
    decreases lines.len(),
{
    if lines.len() > 0 {
        lemma_directory_created_once(o, lines.drop_last());
        let before = run(None, o, lines.drop_last());
        let last = step(before.0, o, lines.last());
        let acts = before.1 + last.1;
        let n = before.1.len() as int;
        assert(run(None, o, lines) == (last.0, acts));
        assert(forall|i: int| 0 <= i < n ==> acts[i] == before.1[i]);
        assert(forall|i: int| 0 <= i < last.1.len() ==> acts[n + i] == last.1[i]);
        let t = trimmed(lines.last());
        if is_open_link(t) {
            assert(forall|i: int| 0 <= i < last.1.len() ==> last.1[i] is OpenInBrowser);
            if let Some(p) = before.0 {
                let c = choose|c: int|
                    {
                        &&& 0 <= c < before.1.len()
                        &&& #[trigger] before.1[c] == ActionModel::CreateDir(p)
                        &&& forall|i: int|
                            0 <= i < before.1.len() && #[trigger] before.1[i] is CreateDir ==> i == c
                        &&& forall|i: int|
                            0 <= i < before.1.len() && #[trigger] before.1[i] is Download ==> c < i
                                && before.1[i]->Download_1 == p
                    };
                assert(acts[c] == ActionModel::CreateDir(p));
            }
        } else if let Some(p) = before.0 {
            let c = choose|c: int|
                {
                    &&& 0 <= c < before.1.len()
                    &&& #[trigger] before.1[c] == ActionModel::CreateDir(p)
                    &&& forall|i: int|
                        0 <= i < before.1.len() && #[trigger] before.1[i] is CreateDir ==> i == c
                    &&& forall|i: int|
                        0 <= i < before.1.len() && #[trigger] before.1[i] is Download ==> c < i
                            && before.1[i]->Download_1 == p
                };
            assert(acts[c] == ActionModel::CreateDir(p));
            assert(forall|i: int| 0 <= i < last.1.len() ==> !(last.1[i] is CreateDir));
            assert(forall|i: int|
                0 <= i < last.1.len() && last.1[i] is Download ==> last.1[i]->Download_1 == p);
        } else {
            let p = derived_path(t);
            assert(last.1[0] == ActionModel::CreateDir(p));
            assert(acts[n] == ActionModel::CreateDir(p));
            assert(forall|i: int| 1 <= i < last.1.len() ==> !(last.1[i] is CreateDir));
            assert(forall|i: int|
                0 <= i < last.1.len() && last.1[i] is Download ==> last.1[i]->Download_1 == p);
            assert(forall|i: int| 0 <= i < last.1.len() && last.1[i] is Download ==> 0 < i);
        }
    }
}

/// A text that neither opens nor closes with white space is its own trim.
pub proof fn lemma_trim_keeps(s: Seq<char>)
    requires
        s.len() > 0,
        !is_white_space(s[0]),
        !is_white_space(s.last()),
    ensures
        trimmed(s) == s,
{
    assert(s.subrange(0, s.len() as int) =~= s);
}

proof fn lemma_established_first(lines: Seq<Seq<char>>)
    requires
        lines.len() > 0,
        !is_open_link(trimmed(lines[0])),
    ensures
        established(lines) == Some(derived_path(trimmed(lines[0]))),
    decreases lines.len(),
{
    if lines.len() > 1 {
        lemma_established_first(lines.drop_last());
        assert(lines.drop_last()[0] == lines[0]);
    } else {
        assert(established(lines.drop_last()) == None::<Seq<char>>);
    }
}

/// A list whose first line is `example text` creates the directory
/// `example text` first of all, exactly once, and downloads every entry
/// into it.
pub proof fn lemma_example_text_directory(o: RunOptions, lines: Seq<Seq<char>>)
    requires
        lines.len() > 0,
        lines[0] == "example text"@,
    ensures
        run(None, o, lines).0 == Some("example text"@),
        run(None, o, lines).1[0] == ActionModel::CreateDir("example text"@),
        directory_discipline(run(None, o, lines).0, run(None, o, lines).1),
{
    reveal_strlit("example text");
    reveal_strlit("!open_link");
    reveal_strlit("path ");
    let l = "example text"@;
    lemma_trim_keeps(l);
    lemma_not_prefix(l, OPEN_LINK_MARKER@, 0);
    lemma_not_prefix(l, PATH_MARKER@, 0);
    lemma_established_first(lines);
    lemma_directory_created_once(o, lines);
    let first = seq![l];
    let rest = lines.subrange(1, lines.len() as int);
    assert(first + rest =~= lines);
    assert(first.drop_last() =~= Seq::<Seq<char>>::empty());
    lemma_run_in_order(None, o, first, rest);
    assert(run(None, o, first.drop_last()) == (None::<Seq<char>>, Seq::<ActionModel>::empty()));
    assert(Seq::<ActionModel>::empty() + step(None, o, l).1 =~= step(None, o, l).1);
    assert(run(None, o, first).1 == step(None, o, l).1);
}

proof fn lemma_index_from_at(s: Seq<char>, c: char, i: int, k: int)
    requires
        0 <= i <= k <= s.len(),
        k == s.len() || s[k] == c,
        forall|j: int| i <= j < k ==> s[j] != c,
    ensures
        index_from(s, c, i) == k,
    decreases k - i,
{
    if i < k {
        lemma_index_from_at(s, c, i + 1, k);
    }
}

proof fn lemma_index_from_hit(s: Seq<char>, c: char, i: int)
    requires
        0 <= i <= s.len(),
    ensures
        i <= index_from(s, c, i) <= s.len(),
        index_from(s, c, i) < s.len() ==> s[index_from(s, c, i)] == c,
    decreases s.len() - i,
{
    if i < s.len() && s[i] != c {
        lemma_index_from_hit(s, c, i + 1);
    }
}

proof fn lemma_find_from_hit(s: Seq<char>, p: Seq<char>, i: int)
    requires
        0 <= i,
    ensures
        find_from(s, p, i) >= 0 ==> occurs_at(s, p, find_from(s, p, i)),
    decreases s.len() + 1 - i,
{
    if i + p.len() <= s.len() && !occurs_at(s, p, i) {
        lemma_find_from_hit(s, p, i + 1);
    }
}

/// A URL `https://` + `h` + `q`, with no `/` in `h` and `q` opening with
/// one, has host `h` and path `q`.
proof fn lemma_url_parts(h: Seq<char>, q: Seq<char>)
    requires
        forall|j: int| 0 <= j < h.len() ==> h[j] != '/',
        q.len() > 0,
        q[0] == '/',
    ensures
        host("https://"@ + h + q) == h,
        path("https://"@ + h + q) == q,
{
    reveal_strlit("https://");
    let u = "https://"@ + h + q;
    assert(u.subrange(0, 8) =~= "https://"@);
    let r = after_scheme(u);
    assert(r =~= h + q);
    lemma_index_from_at(h + q, '/', 0, h.len() as int);
    assert(r.subrange(0, h.len() as int) =~= h);
    assert(r.subrange(h.len() as int, r.len() as int) =~= q);
}

proof fn lemma_not_suffix(h: Seq<char>, d: Seq<char>, k: int)
    requires
        0 <= k < d.len() + 1,
        d.len() + 1 <= h.len() ==> h[h.len() - d.len() - 1 + k] != (seq!['.'] + d)[k],
        h.len() != d.len(),
    ensures
        !in_domain(h, d),
{
    let q = seq!['.'] + d;
    if has_suffix(h, q) {
        assert(h.subrange(h.len() - q.len(), h.len() as int)[k] == q[k]);
    }
}

proof fn lemma_not_prefix(p: Seq<char>, q: Seq<char>, k: int)
    requires
        0 <= k < q.len(),
        q.len() <= p.len() ==> p[k] != q[k],
    ensures
        !has_prefix(p, q),
{
    if has_prefix(p, q) {
        assert(p.subrange(0, q.len() as int)[k] == q[k]);
    }
}

/// A line whose host lies in no known domain is handed to the scrape
/// service, with the whole line as its `url` parameter.
pub proof fn lemma_unknown_domain_is_scraped(t: Seq<char>)
    requires
        !in_domain(host(t), Uris::ARXIV_DOMAIN@),
        !in_domain(host(t), Uris::GITHUB_DOMAIN@),
        !in_domain(host(t), Uris::GITHUB_RAW_DOMAIN@),
        !in_domain(host(t), Uris::WIKIPEDIA_DOMAIN@),
        !in_domain(host(t), Uris::WIKISOURCE_DOMAIN@),
        !in_domain(host(t), Uris::SCIHUB_DOMAIN@),
    ensures
        resolution(t) == (Uris::PAIMON_SCRAPE_API_REQUEST@ + t, ProviderKind::ScrapeFallback),
{
}

/// A raw-content URL, `https://raw.githubusercontent.com` and a path,
/// resolves to itself under the GitHub rule.
pub proof fn lemma_github_raw_is_fixed(z: Seq<char>)
    requires
        z.len() > 0,
        z[0] == '/',
    ensures
        resolution(Uris::GITHUB_RAW@ + z) == (Uris::GITHUB_RAW@ + z, ProviderKind::GitHub),
{
    reveal_strlit("https://");
    reveal_strlit("arxiv.org");
    reveal_strlit("github.com");
    reveal_strlit("githubusercontent.com");
    reveal_strlit("https://raw.githubusercontent.com");
    reveal_strlit("raw.githubusercontent.com");
    let hl = "raw.githubusercontent.com"@;
    assert(Uris::GITHUB_RAW@ + z =~= "https://"@ + hl + z);
    lemma_url_parts(hl, z);
    lemma_not_suffix(hl, "arxiv.org"@, 0);
    lemma_not_suffix(hl, "github.com"@, 0);
    assert(hl.subrange(3, 25) =~= seq!['.'] + "githubusercontent.com"@);
}

proof fn lemma_find_first(s: Seq<char>, p: Seq<char>, i: int, k: int)
    requires
        0 <= i <= k,
        occurs_at(s, p, k),
        forall|j: int| i <= j < k ==> !occurs_at(s, p, j),
    ensures
        find_from(s, p, i) == k,
    decreases k - i,
{
    if i < k {
        lemma_find_first(s, p, i + 1, k);
    }
}

/// An arXiv abstract line resolves to the raw-content URL of the paper's
/// source on GitHub, which the GitHub rule then leaves as it is.
pub proof fn lemma_arxiv_abstract_to_github_raw(t: Seq<char>)
    requires
        in_domain(host(t), Uris::ARXIV_DOMAIN@),
        has_prefix(path(t), "/abs/"@),
    ensures
        resolution(t).0 == Uris::GITHUB_RAW@ + "/arxiv/papers/main/"@ + path(t).subrange(
            5,
            path(t).len() as int,
        ),
        host(resolution(t).0) == "raw.githubusercontent.com"@,
        resolution(resolution(t).0) == (resolution(t).0, ProviderKind::GitHub),
{
    reveal_strlit("https://");
    reveal_strlit("/abs/");
    reveal_strlit("/blob/");
    reveal_strlit("/blob");
    reveal_strlit("github.com");
    reveal_strlit("https://github.com/arxiv/papers/blob/main/");
    reveal_strlit("/arxiv/papers/blob/main/");
    reveal_strlit("/arxiv/papers/main/");
    reveal_strlit("https://raw.githubusercontent.com");
    reveal_strlit("raw.githubusercontent.com");
    let y = path(t).subrange(5, path(t).len() as int);
    let g = arxiv_source(t);
    let q = "/arxiv/papers/blob/main/"@ + y;
    assert(g =~= "https://"@ + "github.com"@ + q);
    lemma_url_parts("github.com"@, q);
    let pb = "/blob/"@;
    assert(q.subrange(13, 19) =~= pb);
    assert forall|j: int| 0 <= j < 13 implies !occurs_at(q, pb, j) by {
        if occurs_at(q, pb, j) {
            assert(q.subrange(j, j + 6)[0] == pb[0]);
            assert(q.subrange(j, j + 6)[1] == pb[1]);
        }
    }
    lemma_find_first(q, pb, 0, 13);
    let z = q.subrange(0, 13) + q.subrange(18, q.len() as int);
    assert(z =~= "/arxiv/papers/main/"@ + y);
    assert(resolution(t).0 =~= Uris::GITHUB_RAW@ + z);
    lemma_github_raw_is_fixed(z);
    let hl = "raw.githubusercontent.com"@;
    assert(Uris::GITHUB_RAW@ + z =~= "https://"@ + hl + z);
    lemma_url_parts(hl, z);
}

/// A list whose single line is what an arXiv abstract line resolved to
/// downloads that very URL: the line is its own trim and the GitHub rule
/// leaves it as it is.
pub proof fn lemma_arxiv_result_read_as_list(o: RunOptions, t: Seq<char>)
    requires
        in_domain(host(t), Uris::ARXIV_DOMAIN@),
        has_prefix(path(t), "/abs/"@),
        !is_white_space(t.last()),
    ensures
        run(None, o, seq![resolution(t).0]).1[1] is Download,
        run(None, o, seq![resolution(t).0]).1[1]->Download_0 == resolution(t).0,
{
    reveal_strlit("https://raw.githubusercontent.com");
    reveal_strlit("/arxiv/papers/main/");
    reveal_strlit("!open_link");
    reveal_strlit("/abs/");
    lemma_arxiv_abstract_to_github_raw(t);
    let u = resolution(t).0;
    let p = path(t);
    let y = p.subrange(5, p.len() as int);
    let r = after_scheme(t);
    lemma_index_from_hit(r, '/', 0);
    assert(p.subrange(0, 5) == "/abs/"@);
    assert(p.last() == t.last());
    assert(u.last() == (if y.len() == 0 { '/' } else { y.last() }));
    lemma_trim_keeps(u);
    lemma_not_prefix(u, OPEN_LINK_MARKER@, 0);
    let lines = seq![u];
    assert(lines.drop_last() =~= Seq::<Seq<char>>::empty());
    assert(lines.last() == u);
    assert(run(None, o, lines.drop_last()) == (None::<Seq<char>>, Seq::<ActionModel>::empty()));
    assert(Seq::<ActionModel>::empty() + step(None, o, u).1 =~= step(None, o, u).1);
}

/// Resolving again what a known provider's rule gave changes nothing: the
/// URL is already in the form that the rules produce, and only an arXiv
/// abstract, now a GitHub raw-content URL, changes its tag. (A scrape-service
/// URL lies in no known domain, so it would be wrapped once more.)
pub proof fn lemma_resolution_idempotent(t: Seq<char>)
    requires
        resolution(t).1 != ProviderKind::ScrapeFallback,
    ensures
        resolution(resolution(t).0).0 == resolution(t).0,
        resolution(t).1 != ProviderKind::Arxiv ==> resolution(resolution(t).0).1 == resolution(t).1,
        resolution(t).1 == ProviderKind::Arxiv ==> (resolution(resolution(t).0).1 == ProviderKind::Arxiv
            || resolution(resolution(t).0).1 == ProviderKind::GitHub),
{
    reveal_strlit("https://");
    reveal_strlit("/abs/");
    reveal_strlit("/wiki/");
    reveal_strlit("/blob/");
    reveal_strlit("/blob");
    reveal_strlit("arxiv.org");
    reveal_strlit("github.com");
    reveal_strlit("githubusercontent.com");
    reveal_strlit("wikipedia.org");
    reveal_strlit("wikisource.org");
    reveal_strlit("https://raw.githubusercontent.com");
    reveal_strlit("https://en.wikipedia.org/api/rest_v1/page/pdf/");
    reveal_strlit("https://en.wikisource.org/api/rest_v1/page/pdf/");
    let h = host(t);
    let p = path(t);
    let u = resolution(t).0;
    if u != t {
        if in_domain(h, Uris::ARXIV_DOMAIN@) {
            lemma_arxiv_abstract_to_github_raw(t);
        } else if in_domain(h, Uris::GITHUB_DOMAIN@) {
            let b = find_from(p, "/blob/"@, 0);
            lemma_find_from_hit(p, "/blob/"@, 0);
            let r = after_scheme(t);
            lemma_index_from_hit(r, '/', 0);
            assert(p.subrange(b, b + 6)[0] == '/');
            assert(p.subrange(b, b + 6)[5] == '/');
            let z = p.subrange(0, b) + p.subrange(b + 5, p.len() as int);
            assert(u =~= Uris::GITHUB_RAW@ + z);
            assert(z[0] == '/');
            lemma_github_raw_is_fixed(z);
        } else if in_domain(h, Uris::WIKIPEDIA_DOMAIN@) {
            let y = p.subrange(6, p.len() as int);
            let hl = "en.wikipedia.org"@;
            let q = "/api/rest_v1/page/pdf/"@ + y;
            reveal_strlit("en.wikipedia.org");
            reveal_strlit("/api/rest_v1/page/pdf/");
            assert(u =~= "https://"@ + hl + q);
            lemma_url_parts(hl, q);
            lemma_not_suffix(hl, "arxiv.org"@, 0);
            lemma_not_suffix(hl, "github.com"@, 0);
            lemma_not_suffix(hl, "githubusercontent.com"@, 0);
            assert(hl.subrange(2, 16) =~= seq!['.'] + "wikipedia.org"@);
            lemma_not_prefix(q, "/wiki/"@, 1);
        } else if in_domain(h, Uris::WIKISOURCE_DOMAIN@) {
            let y = p.subrange(6, p.len() as int);
            let hl = "en.wikisource.org"@;
            let q = "/api/rest_v1/page/pdf/"@ + y;
            reveal_strlit("en.wikisource.org");
            reveal_strlit("/api/rest_v1/page/pdf/");
            assert(u =~= "https://"@ + hl + q);
            lemma_url_parts(hl, q);
            lemma_not_suffix(hl, "arxiv.org"@, 0);
            lemma_not_suffix(hl, "github.com"@, 0);
            lemma_not_suffix(hl, "githubusercontent.com"@, 0);
            lemma_not_suffix(hl, "wikipedia.org"@, 0);
            assert(hl.subrange(2, 17) =~= seq!['.'] + "wikisource.org"@);
            lemma_not_prefix(q, "/wiki/"@, 1);
        }
    }
}

} // verus!
