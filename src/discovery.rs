//! Discovery of question ids in a DuckDuckGo result page.
use vstd::prelude::*;
use vstd::string::StrSliceExecFns;
use vstd::string::StringExecFns;
use crate::model::Error;
use crate::text::{chars_of, find, find_exec, trim_end, trim_end_len};
use crate::urls::strings;

verus! {

/// The CSS selector of an organic result link on DuckDuckGo's page.
pub const RESULT_SELECTOR: &'static str = "a.result__a";

/// The values of the attribute `attr` of each element that `selector` picks
/// in the HTML document `html`, in document order (`None` where an element
/// lacks it), as scraper finds them; `None` where `selector` does not parse.
pub uninterp spec fn selected_attrs(html: Seq<char>, selector: Seq<char>, attr: Seq<char>) -> Option<Seq<Option<Seq<char>>>>;

/// `s` percent-decoded, with invalid UTF-8 replaced, as percent_encoding does it.
pub uninterp spec fn percent_decoded(s: Seq<char>) -> Seq<char>;

pub open spec fn opt_strings(v: Seq<Option<String>>) -> Seq<Option<Seq<char>>> {
    v.map_values(|o: Option<String>| match o { Some(s) => Some(s@), None => None })
}

/// Relies on scraper's `Html::parse_document`, `Selector::parse`, `Html::select`
/// and `Element::attr`: the values depend on the three arguments alone.
#[verifier::external_body]
fn select_attrs(html: &str, selector: &str, attr: &str) -> (r: Option<Vec<Option<String>>>)
    ensures
        r matches Some(v) ==> selected_attrs(html@, selector@, attr@) == Some(opt_strings(v@)),
        r is None ==> selected_attrs(html@, selector@, attr@) is None,
{
    let sel = scraper::Selector::parse(selector).ok()?;
    let doc = scraper::Html::parse_document(html);
    Some(doc.select(&sel).map(|a| a.value().attr(attr).map(String::from)).collect())
}

/// Relies on `percent_decode_str` and `PercentDecode::decode_utf8_lossy`.
#[verifier::external_body]
fn percent_decode(s: &str) -> (r: String)
    ensures
        r@ == percent_decoded(s@),
{
    percent_encoding::percent_decode_str(s).decode_utf8_lossy().into_owned()
}

/// The question id in `input`: what follows `<site_url>/questions/` up to the
/// next slash.
pub open spec fn url_to_id(site_url: Seq<char>, input: Seq<char>) -> Option<Seq<char>> {
    let frag = trim_end(site_url, '/') + "/questions/"@;
    match find(input, frag) {
        None => None,
        Some(ix) => {
            let rest = input.subrange(ix + frag.len(), input.len() as int);
            match find(rest, seq!['/']) {
                None => None,
                Some(end) => Some(rest.subrange(0, end)),
            }
        },
    }
}

/// The id of the question of the site `site_url` that `input` links to.
pub fn question_url_to_id(site_url: &str, input: &str) -> (r: Option<String>)
    ensures
        r matches Some(id) ==> url_to_id(site_url@, input@) == Some(id@),
        r is None ==> url_to_id(site_url@, input@) is None,
{
    let su = chars_of(site_url);
    let n = trim_end_len(&su, '/');
    let mut frag = site_url.substring_char(0, n).to_owned();
    frag.append("/questions/");
    let fc = chars_of(frag.as_str());
    let ic = chars_of(input);
    match find_exec(&ic, &fc) {
        None => None,
        Some(ix) => {
            proof {
                assert(crate::text::occurs_at(input@, frag@, ix as int)) by {
                    lemma_find_occurs(input@, frag@, 0);
                }
            }
            let len = input.unicode_len();
            let rest = input.substring_char(ix + fc.len(), len);
            let rc = chars_of(rest);
            let mut slash: Vec<char> = Vec::new();
            slash.push('/');
            assert(slash@ =~= seq!['/']);
            match find_exec(&rc, &slash) {
                None => None,
                Some(end) => {
                    proof {
                        lemma_find_occurs(rest@, slash@, 0);
                    }
                    Some(rest.substring_char(0, end).to_owned())
                },
            }
        },
    }
}

/// A position that `find_from` gives is one where the pattern stands.
pub proof fn lemma_find_occurs(s: Seq<char>, pat: Seq<char>, i: int)
    ensures
        find_from_ok(s, pat, i),
    decreases s.len() + 1 - i,
{
    if !(i < 0 || i + pat.len() > s.len()) && !crate::text::occurs_at(s, pat, i) {
        lemma_find_occurs(s, pat, i + 1);
    }
}

pub open spec fn find_from_ok(s: Seq<char>, pat: Seq<char>, i: int) -> bool {
    crate::text::find_from(s, pat, i) matches Some(j) ==> crate::text::occurs_at(s, pat, j) && i <= j
}

/// A position that `key_pos` gives holds the code looked for.
pub proof fn lemma_key_pos(g: Seq<(Seq<char>, Seq<Seq<char>>)>, code: Seq<char>, j: int)
    ensures
        key_pos(g, code, j) matches Some(k) ==> 0 <= k < g.len() && g[k].0 == code,
    decreases g.len() - j,
{
    if !(j < 0 || j >= g.len()) && g[j].0 != code {
        lemma_key_pos(g, code, j + 1);
    }
}

/// Why the result page gave no candidates.
#[derive(Clone, Copy, Debug)]
pub enum ScrapeFailure {
    /// A result link had no address.
    NoHref,
    /// A result link led outside the configured sites.
    OutsideNetwork,
    /// The page held no result link: DuckDuckGo refused the request.
    Blocked,
}

pub open spec fn failure_message(f: ScrapeFailure) -> Seq<char> {
    match f {
        ScrapeFailure::NoHref => "Anchor with no href"@,
        ScrapeFailure::OutsideNetwork => "Duckduckgo returned results outside of SE network"@,
        ScrapeFailure::Blocked => "DuckDuckGo blocked this request"@,
    }
}

/// The error that reports `f`.
pub fn scrape_error(f: ScrapeFailure) -> (r: Error)
    ensures
        r matches Error::ScrapingError(m) && m@ == failure_message(f),
{
    match f {
        ScrapeFailure::NoHref => Error::ScrapingError("Anchor with no href".to_owned()),
        ScrapeFailure::OutsideNetwork => Error::ScrapingError(
            "Duckduckgo returned results outside of SE network".to_owned(),
        ),
        ScrapeFailure::Blocked => Error::ScrapingError("DuckDuckGo blocked this request".to_owned()),
    }
}

/// Site codes with their domains.
pub open spec fn site_pairs(v: Seq<(String, String)>) -> Seq<(Seq<char>, Seq<char>)> {
    v.map_values(|p: (String, String)| (p.0@, p.1@))
}

/// The first site, from position `i` on, whose question `url` links to, with
/// the question's id.
pub open spec fn match_site(sites: Seq<(Seq<char>, Seq<char>)>, url: Seq<char>, i: int) -> Option<(Seq<char>, Seq<char>)>
    decreases sites.len() - i,
{
    if i < 0 || i >= sites.len() {
        None
    } else {
        match url_to_id(sites[i].1, url) {
            Some(id) => Some((sites[i].0, id)),
            None => match_site(sites, url, i + 1),
        }
    }
}

/// The (site code, id) pairs found from link `i` on, after `found`: each link
/// adds one pair, until at least one pair and at least `limit` pairs are found.
pub open spec fn scan(
    links: Seq<Option<Seq<char>>>,
    sites: Seq<(Seq<char>, Seq<char>)>,
    limit: int,
    i: int,
    found: Seq<(Seq<char>, Seq<char>)>,
) -> Result<Seq<(Seq<char>, Seq<char>)>, ScrapeFailure>
    decreases links.len() - i,
{
    if i < 0 || i >= links.len() || (found.len() > 0 && found.len() >= limit) {
        Ok(found)
    } else {
        match links[i] {
            None => Err(ScrapeFailure::NoHref),
            Some(u) => match match_site(sites, u, 0) {
                None => Err(ScrapeFailure::OutsideNetwork),
                Some(c) => scan(links, sites, limit, i + 1, found.push(c)),
            },
        }
    }
}

/// The position in `g`, from `j` on, of the entry for `code`.
pub open spec fn key_pos(g: Seq<(Seq<char>, Seq<Seq<char>>)>, code: Seq<char>, j: int) -> Option<int>
    decreases g.len() - j,
{
    if j < 0 || j >= g.len() {
        None
    } else if g[j].0 == code {
        Some(j)
    } else {
        key_pos(g, code, j + 1)
    }
}

/// The pairs `p` grouped by site code: sites in order of first appearance,
/// ids in order of appearance.
pub open spec fn group(p: Seq<(Seq<char>, Seq<char>)>) -> Seq<(Seq<char>, Seq<Seq<char>>)>
    decreases p.len(),
{
    if p.len() == 0 {
        Seq::empty()
    } else {
        let g = group(p.drop_last());
        let c = p.last();
        match key_pos(g, c.0, 0) {
            Some(j) => g.update(j, (c.0, g[j].1.push(c.1))),
            None => g.push((c.0, seq![c.1])),
        }
    }
}

/// The candidates of the links `links`: grouped pairs, or why there are none.
pub open spec fn candidates(
    links: Seq<Option<Seq<char>>>,
    sites: Seq<(Seq<char>, Seq<char>)>,
    limit: int,
) -> Result<Seq<(Seq<char>, Seq<Seq<char>>)>, ScrapeFailure> {
    match scan(links, sites, limit, 0, Seq::empty()) {
        Err(f) => Err(f),
        Ok(p) => if p.len() == 0 { Err(ScrapeFailure::Blocked) } else { Ok(group(p)) },
    }
}

pub open spec fn groups(g: Seq<(String, Vec<String>)>) -> Seq<(Seq<char>, Seq<Seq<char>>)> {
    g.map_values(|e: (String, Vec<String>)| (e.0@, strings(e.1@)))
}

/// `r` is the outcome `c`, failures reported by their messages.
pub open spec fn reports(r: Result<Vec<(String, Vec<String>)>, Error>, c: Result<Seq<(Seq<char>, Seq<Seq<char>>)>, ScrapeFailure>) -> bool {
    match c {
        Ok(g) => r matches Ok(v) && groups(v@) == g,
        Err(f) => r matches Err(Error::ScrapingError(m)) && m@ == failure_message(f),
    }
}

/// The first configured site whose question `url` links to, with the id.
fn match_site_exec(sites: &Vec<(String, String)>, url: &str) -> (r: Option<(String, String)>)
    ensures
        r matches Some(c) ==> match_site(site_pairs(sites@), url@, 0) == Some((c.0@, c.1@)),
        r is None ==> match_site(site_pairs(sites@), url@, 0) is None,
{
    let ghost sp = site_pairs(sites@);
    let mut i: usize = 0;
    while i < sites.len()
        invariant
            sp == site_pairs(sites@),
            i <= sites@.len(),
            match_site(sp, url@, 0) == match_site(sp, url@, i as int),
        decreases sites@.len() - i,
    {
        match question_url_to_id(sites[i].1.as_str(), url) {
            Some(id) => {
                return Some((sites[i].0.clone(), id));
            },
            None => {},
        }
        i += 1;
    }
    None
}

/// The position in `g` of the entry for `code`.
fn key_pos_exec(g: &Vec<(String, Vec<String>)>, code: &String) -> (r: Option<usize>)
    ensures
        r matches Some(j) ==> key_pos(groups(g@), code@, 0) == Some(j as int) && j < g@.len(),
        r is None ==> key_pos(groups(g@), code@, 0) is None,
{
    let mut j: usize = 0;
    while j < g.len()
        invariant
            j <= g@.len(),
            key_pos(groups(g@), code@, 0) == key_pos(groups(g@), code@, j as int),
        decreases g@.len() - j,
    {
        if g[j].0 == *code {
            return Some(j);
        }
        j += 1;
    }
    None
}

/// Adds the id `id` of the site `code` to the groups `g`.
fn add_to_group(g: &mut Vec<(String, Vec<String>)>, code: String, id: String)
    ensures
        groups(final(g)@) == match key_pos(groups(old(g)@), code@, 0) {
            Some(j) => groups(old(g)@).update(j, (code@, groups(old(g)@)[j].1.push(id@))),
            None => groups(old(g)@).push((code@, seq![id@])),
        },
{
    match key_pos_exec(g, &code) {
        Some(j) => {
            let ghost before = groups(g@);
            proof {
                lemma_key_pos(before, code@, 0);
            }
            let mut e = g.remove(j);
            e.1.push(id);
            g.insert(j, e);
            assert(strings(e.1@) =~= before[j as int].1.push(id@));
            assert(groups(g@) =~= before.update(j as int, (code@, before[j as int].1.push(id@))));
        },
        None => {
            let ghost before = groups(g@);
            let mut ids: Vec<String> = Vec::new();
            ids.push(id);
            assert(strings(ids@) =~= seq![id@]);
            g.push((code, ids));
            assert(groups(g@) =~= before.push((code@, seq![id@])));
        },
    }
}

/// The question ids that the result links `links` (decoded addresses, `None`
/// for a link without one) lead to, grouped by site, taking links until at
/// least one and at least `limit` ids are found. Fails on a link without an
/// address, on one that leads to no configured site, and where no id is
/// found at all, which is how a refused request looks.
pub fn collect_candidates(links: &Vec<Option<String>>, sites: &Vec<(String, String)>, limit: u16)
    -> (r: Result<Vec<(String, Vec<String>)>, Error>)
    ensures
        reports(r, candidates(opt_strings(links@), site_pairs(sites@), limit as int)),
{
    let ghost ls = opt_strings(links@);
    let ghost sp = site_pairs(sites@);
    let ghost mut found: Seq<(Seq<char>, Seq<char>)> = Seq::empty();
    let mut g: Vec<(String, Vec<String>)> = Vec::new();
    let mut count: usize = 0;
    let mut i: usize = 0;
    while i < links.len() && !(count > 0 && count >= limit as usize)
        invariant
            ls == opt_strings(links@),
            sp == site_pairs(sites@),
            i <= links@.len(),
            count == found.len(),
            count <= i,
            groups(g@) == group(found),
            scan(ls, sp, limit as int, 0, Seq::empty()) == scan(ls, sp, limit as int, i as int, found),
        decreases links@.len() - i,
    {
        match &links[i] {
            None => {
                return Err(scrape_error(ScrapeFailure::NoHref));
            },
            Some(u) => {
                match match_site_exec(sites, u.as_str()) {
                    None => {
                        return Err(scrape_error(ScrapeFailure::OutsideNetwork));
                    },
                    Some(c) => {
                        let ghost pair = (c.0@, c.1@);
                        assert(found.push(pair).drop_last() =~= found);
                        add_to_group(&mut g, c.0, c.1);
                        proof {
                            found = found.push(pair);
                        }
                        count += 1;
                    },
                }
            },
        }
        i += 1;
    }
    assert(scan(ls, sp, limit as int, i as int, found) == Ok::<Seq<(Seq<char>, Seq<char>)>, ScrapeFailure>(found));
    if count == 0 {
        Err(scrape_error(ScrapeFailure::Blocked))
    } else {
        Ok(g)
    }
}

/// The links of DuckDuckGo's organic results in `html`, decoded.
pub open spec fn result_links(html: Seq<char>) -> Option<Seq<Option<Seq<char>>>> {
    match selected_attrs(html, RESULT_SELECTOR@, "href"@) {
        None => None,
        Some(hs) => Some(decode_links(hs)),
    }
}

pub open spec fn decode_link(h: Option<Seq<char>>) -> Option<Seq<char>> {
    match h {
        Some(s) => Some(percent_decoded(s)),
        None => None,
    }
}

pub open spec fn decode_links(hs: Seq<Option<Seq<char>>>) -> Seq<Option<Seq<char>>> {
    hs.map_values(|h: Option<Seq<char>>| decode_link(h))
}

/// The question ids that DuckDuckGo's result page `html` links to, grouped by
/// the code of their site among `sites` (code, domain), at most `limit` of
/// them but at least one; see `collect_candidates`.
pub fn parse_questions_from_ddg_html(html: &str, sites: &Vec<(String, String)>, limit: u16)
    -> (r: Result<Vec<(String, Vec<String>)>, Error>)
    ensures
        match result_links(html@) {
            None => r matches Err(Error::ScrapingError(_)),
            Some(ls) => reports(r, candidates(ls, site_pairs(sites@), limit as int)),
        },
{
    let hrefs = match select_attrs(html, RESULT_SELECTOR, "href") {
        None => {
            return Err(Error::ScrapingError("Invalid result selector".to_owned()));
        },
        Some(h) => h,
    };
    let ghost hs = opt_strings(hrefs@);
    let mut links: Vec<Option<String>> = Vec::new();
    let mut i: usize = 0;
    while i < hrefs.len()
        invariant
            hs == opt_strings(hrefs@),
            i <= hrefs@.len(),
            opt_strings(links@) == decode_links(hs).subrange(0, i as int),
            result_links(html@) == Some(decode_links(hs)),
        decreases hrefs@.len() - i,
    {
        let ghost before = opt_strings(links@);
        match &hrefs[i] {
            None => {
                assert(hs[i as int] is None);
                links.push(None);
                assert(opt_strings(links@) =~= before.push(None));
                assert(decode_links(hs)[i as int] is None);
            },
            Some(h) => {
                assert(hs[i as int] == Some(h@));
                let d = percent_decode(h.as_str());
                links.push(Some(d));
                assert(opt_strings(links@) =~= before.push(Some(d@)));
                assert(decode_links(hs)[i as int] == Some(d@));
            },
        }
        assert(opt_strings(links@) =~= decode_links(hs).subrange(0, i + 1));
        i += 1;
    }
    assert(decode_links(hs).subrange(0, i as int) =~= decode_links(hs));
    collect_candidates(&links, sites, limit)
}

} // verus!
