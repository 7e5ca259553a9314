//! The site directory, the search configuration with its lucky variant, the
//! parameters of each API request and the lucky answer.
use vstd::prelude::*;
use vstd::string::StrSliceExecFns;
use vstd::string::StringExecFns;
use crate::model::{Config, Error, Question, Site};
use crate::ranking::{by_score_desc, merge_results, merged, Scored};
use crate::text::{decimal, decimal_string, join, join_exec};
use crate::urls::{pairs, strings, SE_FILTER};

verus! {

/// The sites known to the StackExchange network.
pub struct LocalStorage {
    pub sites: Vec<Site>,
}

/// A site of `sites` has the code `code`.
pub open spec fn known(sites: Seq<Site>, code: Seq<char>) -> bool {
    exists|k: int| 0 <= k < sites.len() && (#[trigger] sites[k]).api_site_parameter@ == code
}

/// `codes` holds `code`.
pub open spec fn has_code(codes: Seq<Seq<char>>, code: Seq<char>) -> bool {
    exists|k: int| 0 <= k < codes.len() && codes[k] == code
}

/// (code, domain) of each site of `sites` whose code `codes` holds, in the
/// order of `sites`.
pub open spec fn site_urls(sites: Seq<Site>, codes: Seq<Seq<char>>) -> Seq<(Seq<char>, Seq<char>)>
    decreases sites.len(),
{
    if sites.len() == 0 {
        Seq::empty()
    } else {
        let p = site_urls(sites.drop_last(), codes);
        let s = sites.last();
        if has_code(codes, s.api_site_parameter@) {
            p.push((s.api_site_parameter@, s.site_url@))
        } else {
            p
        }
    }
}

/// Whether `codes` holds `code`.
fn has_code_exec(codes: &Vec<String>, code: &String) -> (r: bool)
    ensures
        r == has_code(strings(codes@), code@),
{
    let mut i: usize = 0;
    while i < codes.len()
        invariant
            i <= codes@.len(),
            forall|k: int| 0 <= k < i ==> strings(codes@)[k] != code@,
        decreases codes@.len() - i,
    {
        if codes[i] == *code {
            assert(strings(codes@)[i as int] == code@);
            return true;
        }
        i += 1;
    }
    false
}

impl LocalStorage {
    /// The first of `site_codes` that names no known site.
    pub fn find_invalid_site<'a>(&self, site_codes: &'a Vec<String>) -> (r: Option<&'a String>)
        ensures
            r is None <==> forall|i: int| 0 <= i < site_codes@.len() ==> known(self.sites@, #[trigger] site_codes@[i]@),
            r matches Some(s) ==> exists|i: int| 0 <= i < site_codes@.len() && #[trigger] site_codes@[i] == *s
                && !known(self.sites@, s@)
                && forall|j: int| 0 <= j < i ==> known(self.sites@, #[trigger] site_codes@[j]@),
    {
        let mut i: usize = 0;
        while i < site_codes.len()
            invariant
                i <= site_codes@.len(),
                forall|j: int| 0 <= j < i ==> known(self.sites@, #[trigger] site_codes@[j]@),
            decreases site_codes@.len() - i,
        {
            let mut k: usize = 0;
            let mut found = false;
            while k < self.sites.len() && !found
                invariant
                    i < site_codes@.len(),
                    k <= self.sites@.len(),
                    found ==> known(self.sites@, site_codes@[i as int]@),
                    !found ==> forall|m: int| 0 <= m < k ==> (#[trigger] self.sites@[m]).api_site_parameter@ != site_codes@[i as int]@,
                decreases self.sites@.len() - k,
            {
                if self.sites[k].api_site_parameter == site_codes[i] {
                    found = true;
                }
                k += 1;
            }
            if !found {
                assert(!known(self.sites@, site_codes@[i as int]@));
                return Some(&site_codes[i]);
            }
            i += 1;
        }
        None
    }

    /// (code, domain) of each known site that `site_codes` names.
    pub fn get_urls(&self, site_codes: &Vec<String>) -> (r: Vec<(String, String)>)
        ensures
            pairs(r@) == site_urls(self.sites@, strings(site_codes@)),
    {
        let mut r: Vec<(String, String)> = Vec::new();
        let mut i: usize = 0;
        while i < self.sites.len()
            invariant
                i <= self.sites@.len(),
                pairs(r@) == site_urls(self.sites@.subrange(0, i as int), strings(site_codes@)),
            decreases self.sites@.len() - i,
        {
            assert(self.sites@.subrange(0, i + 1).drop_last() =~= self.sites@.subrange(0, i as int));
            let ghost before = pairs(r@);
            let s = &self.sites[i];
            if has_code_exec(site_codes, &s.api_site_parameter) {
                r.push((s.api_site_parameter.clone(), s.site_url.clone()));
                assert(pairs(r@) =~= before.push((s.api_site_parameter@, s.site_url@)));
            }
            i += 1;
        }
        assert(self.sites@.subrange(0, i as int) =~= self.sites@);
        r
    }
}

/// What the search of `config` looks like when only one answer is wanted.
pub open spec fn is_lucky_of(c: Config, r: Config) -> bool {
    &&& r.limit == 1
    &&& r.duckduckgo == c.duckduckgo
    &&& r.api_key == c.api_key
    &&& strings(r.sites@) == if c.duckduckgo || c.sites@.len() == 0 {
        strings(c.sites@)
    } else {
        strings(c.sites@).take(1)
    }
}

/// A search of the StackExchange network for one query.
#[derive(Clone)]
pub struct StackExchange {
    pub config: Config,
    /// (code, domain) of each configured site.
    pub sites: Vec<(String, String)>,
    pub query: String,
}

/// The parameters sent with every API request.
pub open spec fn default_opts(api_key: Option<String>) -> Seq<(Seq<char>, Seq<char>)> {
    seq![("filter"@, SE_FILTER@)] + match api_key {
        Some(k) => seq![("key"@, k@)],
        None => Seq::empty(),
    }
}

fn copy_strings(v: &Vec<String>, n: usize) -> (r: Vec<String>)
    requires
        n <= v@.len(),
    ensures
        strings(r@) == strings(v@).take(n as int),
{
    let mut r: Vec<String> = Vec::new();
    let mut i: usize = 0;
    while i < n
        invariant
            i <= n <= v@.len(),
            strings(r@) == strings(v@).take(i as int),
        decreases n - i,
    {
        let ghost before = strings(r@);
        r.push(v[i].clone());
        assert(strings(r@) =~= before.push(strings(v@)[i as int]));
        i += 1;
        assert(strings(r@) =~= strings(v@).take(i as int));
    }
    r
}

impl StackExchange {
    /// A search for `query` on the sites of `config` that `local_storage` knows.
    pub fn new(config: Config, local_storage: LocalStorage, query: String) -> (r: StackExchange)
        ensures
            pairs(r.sites@) == site_urls(local_storage.sites@, strings(config.sites@)),
            r.config == config,
            r.query == query,
    {
        let sites = local_storage.get_urls(&config.sites);
        StackExchange { config, sites, query }
    }

    /// The same search asking for one question only and, unless it goes
    /// through DuckDuckGo, on the first configured site only.
    pub fn lucky(&self) -> (r: StackExchange)
        ensures
            is_lucky_of(self.config, r.config),
            pairs(r.sites@) == pairs(self.sites@),
            r.query@ == self.query@,
    {
        let n = if self.config.duckduckgo || self.config.sites.len() == 0 { self.config.sites.len() } else { 1 };
        let sites = copy_strings(&self.config.sites, n);
        assert(strings(self.config.sites@).take(self.config.sites@.len() as int) =~= strings(self.config.sites@));
        let api_key = match &self.config.api_key {
            Some(k) => Some(k.clone()),
            None => None,
        };
        let mut urls: Vec<(String, String)> = Vec::new();
        let mut i: usize = 0;
        while i < self.sites.len()
            invariant
                i <= self.sites@.len(),
                pairs(urls@) == pairs(self.sites@).take(i as int),
            decreases self.sites@.len() - i,
        {
            let ghost before = pairs(urls@);
            urls.push((self.sites[i].0.clone(), self.sites[i].1.clone()));
            assert(pairs(urls@) =~= before.push(pairs(self.sites@)[i as int]));
            i += 1;
            assert(pairs(urls@) =~= pairs(self.sites@).take(i as int));
        }
        assert(pairs(self.sites@).take(i as int) =~= pairs(self.sites@));
        let config = Config { api_key, limit: 1, sites, duckduckgo: self.config.duckduckgo };
        StackExchange { config, sites: urls, query: self.query.clone() }
    }

    /// The domains of the configured sites.
    pub fn site_domains(&self) -> (r: Vec<String>)
        ensures
            strings(r@) == pairs(self.sites@).map_values(|p: (Seq<char>, Seq<char>)| p.1),
    {
        let mut r: Vec<String> = Vec::new();
        let mut i: usize = 0;
        while i < self.sites.len()
            invariant
                i <= self.sites@.len(),
                strings(r@) == pairs(self.sites@).map_values(|p: (Seq<char>, Seq<char>)| p.1).take(i as int),
            decreases self.sites@.len() - i,
        {
            let ghost before = strings(r@);
            r.push(self.sites[i].1.clone());
            assert(strings(r@) =~= before.push(pairs(self.sites@)[i as int].1));
            i += 1;
            assert(strings(r@) =~= pairs(self.sites@).map_values(|p: (Seq<char>, Seq<char>)| p.1).take(i as int));
        }
        assert(pairs(self.sites@).map_values(|p: (Seq<char>, Seq<char>)| p.1).take(i as int)
            =~= pairs(self.sites@).map_values(|p: (Seq<char>, Seq<char>)| p.1));
        r
    }

    /// The parameters sent with every API request: the field filter, and the
    /// key where there is one.
    pub fn get_default_se_opts(&self) -> (r: Vec<(String, String)>)
        ensures
            pairs(r@) == default_opts(self.config.api_key),
    {
        let mut r: Vec<(String, String)> = Vec::new();
        r.push(("filter".to_owned(), SE_FILTER.to_owned()));
        match &self.config.api_key {
            Some(k) => {
                r.push(("key".to_owned(), k.clone()));
            },
            None => {},
        }
        assert(pairs(r@) =~= default_opts(self.config.api_key));
        r
    }

    /// The parameters of a keyword search on `site` for `limit` answered
    /// questions, most relevant first.
    pub fn search_advanced_params(&self, site: &str, limit: u16) -> (r: Vec<(String, String)>)
        ensures
            pairs(r@) == default_opts(self.config.api_key) + seq![
                ("q"@, self.query@),
                ("pagesize"@, decimal(limit as nat)),
                ("site"@, site@),
                ("page"@, "1"@),
                ("answers"@, "1"@),
                ("order"@, "desc"@),
                ("sort"@, "relevance"@),
            ],
    {
        let mut r = self.get_default_se_opts();
        let ghost d = pairs(r@);
        r.push(("q".to_owned(), self.query.clone()));
        r.push(("pagesize".to_owned(), decimal_string(limit as u64)));
        r.push(("site".to_owned(), site.to_owned()));
        r.push(("page".to_owned(), "1".to_owned()));
        r.push(("answers".to_owned(), "1".to_owned()));
        r.push(("order".to_owned(), "desc".to_owned()));
        r.push(("sort".to_owned(), "relevance".to_owned()));
        assert(pairs(r@) =~= d + seq![
            ("q"@, self.query@),
            ("pagesize"@, decimal(limit as nat)),
            ("site"@, site@),
            ("page"@, "1"@),
            ("answers"@, "1"@),
            ("order"@, "desc"@),
            ("sort"@, "relevance"@),
        ]);
        r
    }

    /// The parameters of a request for the questions `ids` of `site`.
    pub fn questions_params(&self, site: &str, ids: &Vec<String>) -> (r: Vec<(String, String)>)
        ensures
            pairs(r@) == default_opts(self.config.api_key) + seq![
                ("site"@, site@),
                ("pagesize"@, decimal(ids@.len())),
                ("page"@, "1"@),
            ],
    {
        let mut r = self.get_default_se_opts();
        let ghost d = pairs(r@);
        r.push(("site".to_owned(), site.to_owned()));
        r.push(("pagesize".to_owned(), decimal_string(ids.len() as u64)));
        r.push(("page".to_owned(), "1".to_owned()));
        assert(pairs(r@) =~= d + seq![
            ("site"@, site@),
            ("pagesize"@, decimal(ids@.len())),
            ("page"@, "1"@),
        ]);
        r
    }

    /// The results of a keyword search on each configured site merged:
    /// ordered by score where more than one site was searched.
    pub fn merge_direct(&self, rs: Vec<Result<Vec<Question>, Error>>) -> (r: Result<Vec<Question>, Error>)
        ensures
            merged(rs@, self.config.sites@.len() > 1, r),
    {
        merge_results(rs, self.config.sites.len() > 1)
    }
}

/// The API endpoint of the questions `ids`.
pub fn questions_endpoint(ids: &Vec<String>) -> (r: String)
    ensures
        r@ == "questions/"@ + join(strings(ids@), ";"@),
{
    let mut r = "questions/".to_owned();
    r.append(join_exec(ids, ";").as_str());
    r
}

/// The message of a question that came without answers.
pub open spec fn no_answers_message() -> Seq<char> {
    "Received question with no answers"@
}

/// The body of the first answer of the first question of `qs`.
pub fn lucky_answer(qs: Vec<Question>) -> (r: Result<String, Error>)
    ensures
        qs@.len() == 0 ==> r matches Err(Error::NoResults),
        qs@.len() > 0 && qs@[0].answers@.len() == 0 ==> (r matches Err(Error::StackExchange(m)) && m@ == no_answers_message()),
        qs@.len() > 0 && qs@[0].answers@.len() > 0 ==> r == Ok::<String, Error>(qs@[0].answers@[0].body),
{
    let mut qs = qs;
    if qs.len() == 0 {
        return Err(Error::NoResults);
    }
    let q = qs.remove(0);
    let mut answers = q.answers;
    if answers.len() == 0 {
        return Err(Error::StackExchange("Received question with no answers".to_owned()));
    }
    let a = answers.remove(0);
    Ok(a.body)
}

/// Where a question's answers are ordered by score, the lucky answer has the
/// highest score of them.
pub proof fn lemma_lucky_is_top_scored(q: Question)
    requires
        by_score_desc(q.answers@),
        q.answers@.len() > 0,
    ensures
        forall|k: int| 0 <= k < q.answers@.len() ==> q.answers@[0].score_of() >= (#[trigger] q.answers@[k]).score_of(),
{
    assert forall|k: int| 0 <= k < q.answers@.len() implies q.answers@[0].score_of() >= (#[trigger] q.answers@[k]).score_of() by {
        if k > 0 {
            assert(q.answers@[0].score_of() >= q.answers@[k].score_of());
        }
    }
}

/// `s` without every leading repetition of `p`.
pub open spec fn trim_start(s: Seq<char>, p: Seq<char>) -> Seq<char>
    decreases s.len(),
{
    if p.len() > 0 && p.len() <= s.len() && s.take(p.len() as int) == p {
        trim_start(s.skip(p.len() as int), p)
    } else {
        s
    }
}

/// `site` with its domain written without the `https://` scheme.
pub fn normalize_site(site: Site) -> (r: Site)
    ensures
        r.api_site_parameter == site.api_site_parameter,
        r.site_url@ == trim_start(site.site_url@, "https://"@),
{
    let url = site.site_url.as_str();
    let cs = crate::text::chars_of(url);
    let pat = crate::text::chars_of("https://");
    proof {
        reveal_strlit("https://");
    }
    let mut start: usize = 0;
    let len = cs.len();
    assert(cs@.skip(0) =~= cs@);
    while crate::text::occurs_at_exec(&cs, &pat, start)
        invariant
            cs@ == url@,
            pat@ == "https://"@,
            pat@.len() == 8,
            start <= cs@.len(),
            cs@.len() == len,
            trim_start(cs@, pat@) == trim_start(cs@.skip(start as int), pat@),
        decreases cs@.len() - start,
    {
        let ghost rest = cs@.skip(start as int);
        assert(rest.take(8) =~= cs@.subrange(start as int, start + 8));
        assert(rest.skip(8) =~= cs@.skip(start + 8));
        start += pat.len();
    }
    let ghost rest = cs@.skip(start as int);
    if pat.len() <= cs.len() - start {
        assert(rest.take(8) =~= cs@.subrange(start as int, start + 8));
    }
    let n = url.unicode_len();
    let trimmed = url.substring_char(start, n).to_owned();
    assert(trimmed@ =~= rest);
    Site { api_site_parameter: site.api_site_parameter, site_url: trimmed }
}

} // verus!
