//! The URLs and query parameters of the requests a search sends.
use vstd::prelude::*;
use vstd::string::StringExecFns;
use vstd::string::StrSliceExecFns;
use crate::text::{chars_of, join, join_exec, split, split_exec, trim_end, trim_end_len, words,
    words_exec};

verus! {

/// DuckDuckGo's address.
pub const DUCKDUCKGO_URL: &'static str = "https://duckduckgo.com";

/// The StackExchange API's address.
pub const SE_API_URL: &'static str = "http://api.stackexchange.com";

/// The version of the StackExchange API in use.
pub const SE_API_VERSION: &'static str = "2.2";

/// A filter that selects exactly the fields of `Question` and `Answer`.
pub const SE_FILTER: &'static str = ".DND5X2VHHUH8HyJzpjo)5NvdHI3w6auG";

/// The URL that `reqwest::Url` makes of `base` with `segments` added to its path.
pub uninterp spec fn url_with_segments(base: Seq<char>, segments: Seq<Seq<char>>) -> Option<Seq<char>>;

/// The URL that `reqwest::Url` makes of `base` with the query pairs `pairs`.
pub uninterp spec fn url_with_query(base: Seq<char>, pairs: Seq<(Seq<char>, Seq<char>)>) -> Option<Seq<char>>;

pub open spec fn strings(v: Seq<String>) -> Seq<Seq<char>> {
    v.map_values(|p: String| p@)
}

pub open spec fn pairs(v: Seq<(String, String)>) -> Seq<(Seq<char>, Seq<char>)> {
    v.map_values(|p: (String, String)| (p.0@, p.1@))
}

/// Relies on `Url::parse`, `Url::path_segments_mut` and `PathSegmentsMut::extend`
/// (url, through reqwest): the URL is determined by `base` and `segments`,
/// `None` where `base` does not parse or cannot take a path.
#[verifier::external_body]
fn segments_url(base: &str, segments: &Vec<String>) -> (r: Option<String>)
    ensures
        r matches Some(u) ==> url_with_segments(base@, strings(segments@)) == Some(u@),
        r is None ==> url_with_segments(base@, strings(segments@)) is None,
{
    let mut url = reqwest::Url::parse(base).ok()?;
    url.path_segments_mut().ok()?.extend(segments.iter());
    Some(url.to_string())
}

/// Relies on `Url::parse_with_params` (url, through reqwest): the URL is
/// determined by `base` and `pairs`, `None` where `base` does not parse.
#[verifier::external_body]
fn query_url(base: &str, pairs_in: &Vec<(String, String)>) -> (r: Option<String>)
    ensures
        r matches Some(u) ==> url_with_query(base@, pairs(pairs_in@)) == Some(u@),
        r is None ==> url_with_query(base@, pairs(pairs_in@)) is None,
{
    reqwest::Url::parse_with_params(base, pairs_in.iter()).ok().map(|u| u.to_string())
}

/// The path segments of the API endpoint `path`: the version, then the pieces
/// of `path` between slashes.
pub open spec fn api_segments(path: Seq<char>) -> Seq<Seq<char>> {
    seq![SE_API_VERSION@] + split(path, '/')
}

/// The API URL of the endpoint `path` (`questions/1;2`).
pub fn stackexchange_url(path: &str) -> (r: Option<String>)
    ensures
        r matches Some(u) ==> url_with_segments(SE_API_URL@, api_segments(path@)) == Some(u@),
        r is None ==> url_with_segments(SE_API_URL@, api_segments(path@)) is None,
{
    let mut segments: Vec<String> = Vec::new();
    segments.push(SE_API_VERSION.to_owned());
    let mut rest = split_exec(path, '/');
    segments.append(&mut rest);
    assert(strings(segments@) =~= api_segments(path@));
    segments_url(SE_API_URL, &segments)
}

/// `site:` followed by each site, for the search engine.
pub open spec fn site_clauses(sites: Seq<Seq<char>>) -> Seq<Seq<char>> {
    sites.map_values(|s: Seq<char>| "site:"@ + s)
}

/// The search-engine query: the sites as a disjunction, then the words of
/// the question without its trailing question marks.
pub open spec fn ddg_query(query: Seq<char>, sites: Seq<Seq<char>>) -> Seq<char> {
    "("@ + join(site_clauses(sites), " OR "@) + ") "@ + join(words(trim_end(query, '?')), " "@)
}

/// The search-engine query for `query` restricted to `sites`.
pub fn ddg_query_exec(query: &str, sites: &Vec<String>) -> (r: String)
    ensures
        r@ == ddg_query(query@, strings(sites@)),
{
    let mut clauses: Vec<String> = Vec::new();
    let mut i: usize = 0;
    while i < sites.len()
        invariant
            i <= sites@.len(),
            strings(clauses@) == site_clauses(strings(sites@)).subrange(0, i as int),
        decreases sites@.len() - i,
    {
        let c = "site:".to_owned().concat(sites[i].as_str());
        assert(c@ == "site:"@ + strings(sites@)[i as int]);
        let ghost before = strings(clauses@);
        clauses.push(c);
        assert(strings(clauses@) =~= before.push(c@));
        i += 1;
        assert(strings(clauses@) =~= site_clauses(strings(sites@)).subrange(0, i as int));
    }
    assert(site_clauses(strings(sites@)).subrange(0, i as int) =~= site_clauses(strings(sites@)));
    let cs = chars_of(query);
    let n = trim_end_len(&cs, '?');
    let trimmed = query.substring_char(0, n);
    let ws = words_exec(trimmed);
    let mut q = "(".to_owned();
    q.append(join_exec(&clauses, " OR ").as_str());
    q.append(") ");
    q.append(join_exec(&ws, " ").as_str());
    q
}

/// The fixed query pairs that switch off DuckDuckGo's regional settings.
pub open spec fn ddg_pairs(query: Seq<char>, sites: Seq<Seq<char>>) -> Seq<(Seq<char>, Seq<char>)> {
    seq![("q"@, ddg_query(query, sites)), ("kz"@, "-1"@), ("kh"@, "-1"@)]
}

/// The DuckDuckGo search URL for `query` restricted to the domains `sites`.
pub fn duckduckgo_url(query: &str, sites: &Vec<String>) -> (r: Option<String>)
    ensures
        r matches Some(u) ==> url_with_query(DUCKDUCKGO_URL@, ddg_pairs(query@, strings(sites@))) == Some(u@),
        r is None ==> url_with_query(DUCKDUCKGO_URL@, ddg_pairs(query@, strings(sites@))) is None,
{
    let q = ddg_query_exec(query, sites);
    let mut ps: Vec<(String, String)> = Vec::new();
    ps.push(("q".to_owned(), q));
    ps.push(("kz".to_owned(), "-1".to_owned()));
    ps.push(("kh".to_owned(), "-1".to_owned()));
    assert(pairs(ps@) =~= ddg_pairs(query@, strings(sites@)));
    query_url(DUCKDUCKGO_URL, &ps)
}

} // verus!
