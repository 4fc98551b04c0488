use vstd::prelude::*;
use vstd::string::StringExecFns;
use crate::text::{
    chars_of, find_exec, find_from, has_prefix, has_suffix, index_from, index_from_exec,
    occurs_at, occurs_at_exec, string_of,
};
use crate::uris::Uris;

verus! {

/// The rule under which a line was resolved.
#[derive(PartialEq, Eq, Structural, Clone, Copy, Debug)]
pub enum ProviderKind {
    Arxiv,
    GitHub,
    Wikipedia,
    Wikisource,
    /// sci-hub.se, a known domain whose pages serve the documents
    /// themselves: its lines are fetched as they are, not scraped.
    SciHub,
    ScrapeFallback,
}

/// A list line resolved to the URL that is fetched for it.
#[derive(Debug)]
pub struct ResolvedEntry {
    pub line: String,
    pub url: String,
    pub kind: ProviderKind,
}

/// `t` without a leading `https://` or `http://`.
pub open spec fn after_scheme(t: Seq<char>) -> Seq<char> {
    if has_prefix(t, "https://"@) {
        t.subrange("https://"@.len() as int, t.len() as int)
    } else if has_prefix(t, "http://"@) {
        t.subrange("http://"@.len() as int, t.len() as int)
    } else {
        t
    }
}

/// The host of a URL: what follows the scheme, up to the first `/`.
pub open spec fn host(t: Seq<char>) -> Seq<char> {
    let r = after_scheme(t);
    r.subrange(0, index_from(r, '/', 0))
}

/// The path of a URL: what follows the host, from the first `/` on.
pub open spec fn path(t: Seq<char>) -> Seq<char> {
    let r = after_scheme(t);
    r.subrange(index_from(r, '/', 0), r.len() as int)
}

/// The host is the domain `d` or one of its subdomains.
pub open spec fn in_domain(h: Seq<char>, d: Seq<char>) -> bool {
    h == d || has_suffix(h, seq!['.'] + d)
}

/// The GitHub rule: a file page of a repository (`/blob/` in its path)
/// becomes the address where the file is served as it is; anything else is
/// left as it is.
pub open spec fn github_raw(t: Seq<char>) -> Seq<char> {
    let p = path(t);
    let b = find_from(p, "/blob/"@, 0);
    if b >= 0 {
        Uris::GITHUB_RAW@ + p.subrange(0, b) + p.subrange(b + "/blob"@.len(), p.len() as int)
    } else {
        t
    }
}

/// The arXiv rule: an abstract page becomes the GitHub page of the paper's
/// source, which the GitHub rule then takes.
pub open spec fn arxiv_source(t: Seq<char>) -> Seq<char> {
    let p = path(t);
    Uris::ARXIV_GITHUB_SOURCE@ + p.subrange("/abs/"@.len() as int, p.len() as int)
}

/// What a line resolves to: the URL to fetch and the rule that gave it.
/// The rules are tried in order and the last one takes any line.
pub open spec fn resolution(t: Seq<char>) -> (Seq<char>, ProviderKind) {
    let h = host(t);
    let p = path(t);
    if in_domain(h, Uris::ARXIV_DOMAIN@) {
        if has_prefix(p, "/abs/"@) {
            (github_raw(arxiv_source(t)), ProviderKind::Arxiv)
        } else {
            (t, ProviderKind::Arxiv)
        }
    } else if in_domain(h, Uris::GITHUB_DOMAIN@) {
        (github_raw(t), ProviderKind::GitHub)
    } else if in_domain(h, Uris::GITHUB_RAW_DOMAIN@) {
        (t, ProviderKind::GitHub)
    } else if in_domain(h, Uris::WIKIPEDIA_DOMAIN@) {
        if has_prefix(p, "/wiki/"@) {
            (Uris::WIKIPEDIA_API_REQUEST_PDF@ + p.subrange("/wiki/"@.len() as int, p.len() as int), ProviderKind::Wikipedia)
        } else {
            (t, ProviderKind::Wikipedia)
        }
    } else if in_domain(h, Uris::WIKISOURCE_DOMAIN@) {
        if has_prefix(p, "/wiki/"@) {
            (Uris::WIKISOURCE_API_REQUEST_PDF@ + p.subrange("/wiki/"@.len() as int, p.len() as int), ProviderKind::Wikisource)
        } else {
            (t, ProviderKind::Wikisource)
        }
    } else if in_domain(h, Uris::SCIHUB_DOMAIN@) {
        (t, ProviderKind::SciHub)
    } else {
        (Uris::PAIMON_SCRAPE_API_REQUEST@ + t, ProviderKind::ScrapeFallback)
    }
}

/// Whether the host `s[from..to]` lies in the domain `d`.
fn in_domain_exec(s: &Vec<char>, from: usize, to: usize, d: &str) -> (r: bool)
    requires
        from <= to <= s@.len(),
    ensures
        r == in_domain(s@.subrange(from as int, to as int), d@),
{
    let dc = chars_of(d);
    let ghost h = s@.subrange(from as int, to as int);
    let n = to - from;
    if n == dc.len() {
        let r = occurs_at_exec(s, &dc, from);
        assert(r ==> h =~= dc@);
        assert(h == dc@ ==> s@.subrange(from as int, from + dc@.len()) =~= h);
        if !r {
            assert(h.len() != (seq!['.'] + dc@).len());
        }
        r
    } else if n > dc.len() {
        let r = s[to - dc.len() - 1] == '.' && occurs_at_exec(s, &dc, to - dc.len());
        proof {
            let k = h.len() - dc@.len() - 1;
            let q = seq!['.'] + dc@;
            let w = h.subrange(k, h.len() as int);
            assert(w =~= s@.subrange(to - dc@.len() - 1, to as int));
            assert(w.subrange(1, w.len() as int) =~= s@.subrange(to - dc@.len(), to as int));
            assert(q.subrange(1, q.len() as int) =~= dc@);
            if r {
                assert(w =~= q);
            }
            if w == q {
                assert(w[0] == '.');
            }
            assert(h != dc@);
        }
        r
    } else {
        false
    }
}

/// Resolves a list line to the URL to fetch. Resolution never fails:
/// a line outside every known domain is handed to the scrape service.
pub fn resolve(line: &str) -> (r: ResolvedEntry)
    ensures
        r.line@ == line@,
        r.url@ == resolution(line@).0,
        r.kind == resolution(line@).1,
{
    let (url, kind) = resolve_url(line);
    ResolvedEntry { line: String::from_str(line), url, kind }
}

/// A URL's characters, with the bounds of its host: the path follows it.
fn url_parts(line: &str) -> (r: (Vec<char>, usize, usize))
    ensures
        r.0@ == line@,
        r.1 <= r.2 <= line@.len(),
        host(line@) == line@.subrange(r.1 as int, r.2 as int),
        path(line@) == line@.subrange(r.2 as int, line@.len() as int),
{
    let t = chars_of(line);
    let https = chars_of("https://");
    let http = chars_of("http://");
    let start: usize = if occurs_at_exec(&t, &https, 0) {
        https.len()
    } else if occurs_at_exec(&t, &http, 0) {
        http.len()
    } else {
        0
    };
    let ghost r = after_scheme(t@);
    assert(r =~= t@.subrange(start as int, t@.len() as int));
    let slash = index_from_exec(&t, '/', start);
    proof {
        lemma_index_from_shift(t@, '/', start as int, 0);
    }
    assert(host(line@) =~= t@.subrange(start as int, slash as int));
    assert(path(line@) =~= t@.subrange(slash as int, t@.len() as int));
    (t, start, slash)
}

/// Applies the GitHub rule to a URL.
fn github_raw_exec(line: &str) -> (r: String)
    ensures
        r@ == github_raw(line@),
{
    let (t, _start, slash) = url_parts(line);
    let pc: Vec<char> = chars_of(string_of(&t, slash, t.len()).as_str());
    let blob = chars_of("/blob/");
    match find_exec(&pc, &blob) {
        Some(b) => {
            let mut url = String::from_str(Uris::GITHUB_RAW);
            url.append(string_of(&pc, 0, b).as_str());
            proof {
                reveal_strlit("/blob/");
                reveal_strlit("/blob");
            }
            url.append(string_of(&pc, b + 5, pc.len()).as_str());
            url
        },
        None => String::from_str(line),
    }
}

fn resolve_url(line: &str) -> (r: (String, ProviderKind))
    ensures
        r.0@ == resolution(line@).0,
        r.1 == resolution(line@).1,
{
    let (t, start, slash) = url_parts(line);
    let pc: Vec<char> = chars_of(string_of(&t, slash, t.len()).as_str());
    if in_domain_exec(&t, start, slash, Uris::ARXIV_DOMAIN) {
        let abs = chars_of("/abs/");
        if occurs_at_exec(&pc, &abs, 0) {
            let mut source = String::from_str(Uris::ARXIV_GITHUB_SOURCE);
            source.append(string_of(&pc, abs.len(), pc.len()).as_str());
            (github_raw_exec(source.as_str()), ProviderKind::Arxiv)
        } else {
            (String::from_str(line), ProviderKind::Arxiv)
        }
    } else if in_domain_exec(&t, start, slash, Uris::GITHUB_DOMAIN) {
        (github_raw_exec(line), ProviderKind::GitHub)
    } else if in_domain_exec(&t, start, slash, Uris::GITHUB_RAW_DOMAIN) {
        (String::from_str(line), ProviderKind::GitHub)
    } else if in_domain_exec(&t, start, slash, Uris::WIKIPEDIA_DOMAIN) {
        let wiki = chars_of("/wiki/");
        if occurs_at_exec(&pc, &wiki, 0) {
            let mut url = String::from_str(Uris::WIKIPEDIA_API_REQUEST_PDF);
            url.append(string_of(&pc, wiki.len(), pc.len()).as_str());
            (url, ProviderKind::Wikipedia)
        } else {
            (String::from_str(line), ProviderKind::Wikipedia)
        }
    } else if in_domain_exec(&t, start, slash, Uris::WIKISOURCE_DOMAIN) {
        let wiki = chars_of("/wiki/");
        if occurs_at_exec(&pc, &wiki, 0) {
            let mut url = String::from_str(Uris::WIKISOURCE_API_REQUEST_PDF);
            url.append(string_of(&pc, wiki.len(), pc.len()).as_str());
            (url, ProviderKind::Wikisource)
        } else {
            (String::from_str(line), ProviderKind::Wikisource)
        }
    } else if in_domain_exec(&t, start, slash, Uris::SCIHUB_DOMAIN) {
        (String::from_str(line), ProviderKind::SciHub)
    } else {
        let mut url = String::from_str(Uris::PAIMON_SCRAPE_API_REQUEST);
        url.append(line);
        (url, ProviderKind::ScrapeFallback)
    }
}

/// Searching from `i` on in `s` is searching from `j` on in `s[i-j..]`,
/// shifted by `i - j`.
pub proof fn lemma_index_from_shift(s: Seq<char>, c: char, i: int, j: int)
    requires
        0 <= j <= i <= s.len(),
    ensures
        index_from(s, c, i) == index_from(s.subrange(i - j, s.len() as int), c, j) + (i - j),
        i <= index_from(s, c, i) <= s.len(),
    decreases s.len() - i,
{
    if i < s.len() {
        lemma_index_from_shift(s, c, i + 1, j + 1);
    }
}

} // verus!
