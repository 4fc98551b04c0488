use vstd::prelude::*;

verus! {

/// The fixed endpoints and domains that list resolution works against.
pub struct Uris;

impl Uris {
    /// The domains that have a rule of their own.
    pub const PROVIDERS_DOMAINS: [&'static str; 5] = [
        "wikipedia.org",
        "sci-hub.se",
        "github.com",
        "githubusercontent.com",
        "wikisource.org",
    ];

    pub const ARXIV_DOMAIN: &'static str = "arxiv.org";

    pub const WIKIPEDIA_DOMAIN: &'static str = "wikipedia.org";

    pub const SCIHUB_DOMAIN: &'static str = "sci-hub.se";

    pub const GITHUB_DOMAIN: &'static str = "github.com";

    pub const GITHUB_RAW_DOMAIN: &'static str = "githubusercontent.com";

    pub const WIKISOURCE_DOMAIN: &'static str = "wikisource.org";

    /// Where the GitHub mirror of arXiv keeps a paper's source, by its
    /// identifier.
    pub const ARXIV_GITHUB_SOURCE: &'static str = "https://github.com/arxiv/papers/blob/main/";

    /// Where the files of a GitHub repository are served as they are.
    pub const GITHUB_RAW: &'static str = "https://raw.githubusercontent.com";

    /// The managed-list service.
    pub const RAVENLIB_API_REQUEST: &'static str = "http://localhost/Ravenlib/api/";

    /// The path segment of the managed lists under the service.
    pub const API_LISTS_ENDPOINT: &'static str = "lists";

    /// A service that fetches an arbitrary page given as the `url` parameter.
    pub const PAIMON_SCRAPE_API_REQUEST: &'static str = "https://api.kremilly.com/scrape?url=";

    pub const WIKIPEDIA_API_REQUEST_PDF: &'static str = "https://en.wikipedia.org/api/rest_v1/page/pdf/";

    pub const WIKISOURCE_API_REQUEST_PDF: &'static str = "https://en.wikisource.org/api/rest_v1/page/pdf/";
}

} // verus!
