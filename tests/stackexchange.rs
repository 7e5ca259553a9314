use so_search::discovery::{collect_candidates, parse_questions_from_ddg_html, question_url_to_id};
use so_search::model::{Answer, Config, Error, Question, Site};
use so_search::ranking::{merge_results, preprocess, sort_by_score};
use so_search::search::{lucky_answer, normalize_site, questions_endpoint, LocalStorage, StackExchange};
use so_search::text::{decimal_string, join_exec, split_exec, words_exec};
use so_search::urls::{ddg_query_exec, duckduckgo_url, stackexchange_url};
use std::collections::HashMap;

const EXIT_VIM_HTML: &str = r#"<!DOCTYPE html>
<html><head><title>how do I exit vim at DuckDuckGo</title></head>
<body>
<div class="results">
<div class="result results_links web-result">
<h2 class="result__title"><a rel="nofollow" class="result__a" href="/l/?kh=-1&amp;uddg=https%3A%2F%2Fstackoverflow.com%2Fquestions%2F11828270%2Fhow%2Ddo%2Di%2Dexit%2Dthe%2Dvim%2Deditor">How do I exit the Vim editor? - Stack Overflow</a></h2>
<a class="result__snippet" href="/l/?kh=-1&amp;uddg=https%3A%2F%2Fstackoverflow.com%2Fquestions%2F11828270%2Fhow%2Ddo%2Di%2Dexit%2Dthe%2Dvim%2Deditor">Hit the Esc key</a>
</div>
<div class="result results_links web-result">
<h2 class="result__title"><a rel="nofollow" class="result__a" href="/l/?kh=-1&amp;uddg=https%3A%2F%2Faskubuntu.com%2Fquestions%2F24406%2Fhow%2Dto%2Dclose%2Dvim%2Dfrom%2Dthe%2Dcommand%2Dline">How to close Vim from the command line - Ask Ubuntu</a></h2>
</div>
<div class="result results_links web-result">
<h2 class="result__title"><a rel="nofollow" class="result__a" href="/l/?kh=-1&amp;uddg=https%3A%2F%2Fstackoverflow.com%2Fquestions%2F9171356%2Fhow%2Ddo%2Di%2Dexit%2Dfrom%2Dthe%2Dtext%2Dwindow%2Din%2Dgit">How do I exit from the text window in Git? - Stack Overflow</a></h2>
</div>
<div class="result results_links web-result">
<h2 class="result__title"><a rel="nofollow" class="result__a" href="/l/?kh=-1&amp;uddg=https%3A%2F%2Fstackoverflow.com%2Fquestions%2F5650%2Fsaving%2Dand%2Dquitting">Saving and quitting - Stack Overflow</a></h2>
</div>
</div>
</body></html>
"#;

const BAD_USER_AGENT_HTML: &str = r#"<!DOCTYPE html>
<html><head><title>DuckDuckGo</title></head>
<body>
<div class="no-results">If this error persists, please let us know.</div>
<a class="header__logo" href="/html/">DuckDuckGo</a>
</body></html>
"#;

fn site_pairs(v: &[(&str, &str)]) -> Vec<(String, String)> {
    v.iter().map(|(k, u)| (k.to_string(), u.to_string())).collect()
}

fn as_map(v: Vec<(String, Vec<String>)>) -> HashMap<String, Vec<String>> {
    v.into_iter().collect()
}

fn answer(id: u32, score: i32, body: &str) -> Answer {
    Answer { id, score, body: body.to_string(), is_accepted: false }
}

fn question(id: u32, score: i32, answers: Vec<Answer>) -> Question {
    Question { id, score, answers, title: format!("q{}", id), body: String::from("body") }
}

fn config(sites: &[&str], duckduckgo: bool) -> Config {
    Config {
        api_key: None,
        limit: 20,
        sites: sites.iter().map(|s| s.to_string()).collect(),
        duckduckgo,
    }
}

#[test]
fn test_stackexchange_url() {
    assert_eq!(
        stackexchange_url("some/endpoint").unwrap().as_str(),
        "http://api.stackexchange.com/2.2/some/endpoint"
    )
}

#[test]
fn test_duckduckgo_url() {
    let q = "how do I exit vim?";
    let sites = vec![
        String::from("stackoverflow.com"),
        String::from("unix.stackexchange.com"),
    ];
    assert_eq!(
        duckduckgo_url(q, &sites).unwrap().as_str(),
        String::from(
            "https://duckduckgo.com/\
            ?q=%28site%3Astackoverflow.com+OR+site%3Aunix.stackexchange.com%29\
            +how+do+I+exit+vim&kz=-1&kh=-1"
        )
    )
}

#[test]
fn test_duckduckgo_response() {}

#[test]
fn test_duckduckgo_parser() {
    let sites = site_pairs(&[("stackoverflow", "stackoverflow.com"), ("askubuntu", "askubuntu.com")]);
    let mut expected_question_ids = HashMap::new();
    expected_question_ids.insert(
        "stackoverflow".to_string(),
        vec!["11828270".to_string(), "9171356".to_string()],
    );
    expected_question_ids.insert("askubuntu".to_string(), vec!["24406".to_string()]);
    assert_eq!(
        as_map(parse_questions_from_ddg_html(EXIT_VIM_HTML, &sites, 3).unwrap()),
        expected_question_ids
    );
}

#[test]
fn test_duckduckgo_blocker() -> Result<(), String> {
    let sites = site_pairs(&[("stackoverflow", "stackoverflow.com")]);
    match parse_questions_from_ddg_html(BAD_USER_AGENT_HTML, &sites, 2) {
        Err(Error::ScrapingError(s)) if s == "DuckDuckGo blocked this request".to_string() => Ok(()),
        _ => Err(String::from("Failed to detect DuckDuckGo blocker")),
    }
}

#[test]
fn test_question_url_to_id() {
    let site_url = "stackoverflow.com";
    let input = "/l/?kh=-1&uddg=https://stackoverflow.com/questions/11828270/how-do-i-exit-the-vim-editor";
    assert_eq!(question_url_to_id(site_url, input).unwrap(), "11828270");

    let site_url = "stackoverflow.com";
    let input = "/l/?kh=-1&uddg=https://askubuntu.com/questions/24406/how-to-close-vim-from-the-command-line";
    assert_eq!(question_url_to_id(site_url, input), None);
}

#[test]
fn url_to_id_against_other_site_is_none() {
    let input = "/l/?uddg=https://stackoverflow.com/questions/11828270/how-do-i-exit";
    assert_eq!(question_url_to_id("stackoverflow.com", input).as_deref(), Some("11828270"));
    assert_eq!(question_url_to_id("askubuntu.com", input), None);
}

#[test]
fn url_to_id_trims_trailing_slash_and_needs_closing_slash() {
    let input = "https://askubuntu.com/questions/24406/x";
    assert_eq!(question_url_to_id("askubuntu.com//", input).as_deref(), Some("24406"));
    assert_eq!(question_url_to_id("askubuntu.com", "https://askubuntu.com/questions/24406"), None);
}

#[test]
fn parser_keeps_order_of_first_appearance_and_limit() {
    let sites = site_pairs(&[("stackoverflow", "stackoverflow.com"), ("askubuntu", "askubuntu.com")]);
    let r = parse_questions_from_ddg_html(EXIT_VIM_HTML, &sites, 2).unwrap();
    assert_eq!(r.len(), 2);
    assert_eq!(r[0].0, "stackoverflow");
    assert_eq!(r[0].1, vec!["11828270".to_string()]);
    assert_eq!(r[1].0, "askubuntu");
    assert_eq!(r[1].1, vec!["24406".to_string()]);
    let all = parse_questions_from_ddg_html(EXIT_VIM_HTML, &sites, 10).unwrap();
    assert_eq!(all[0].1, vec!["11828270".to_string(), "9171356".to_string(), "5650".to_string()]);
}

#[test]
fn parser_with_limit_zero_takes_one_link() {
    let sites = site_pairs(&[("stackoverflow", "stackoverflow.com"), ("askubuntu", "askubuntu.com")]);
    let r = parse_questions_from_ddg_html(EXIT_VIM_HTML, &sites, 0).unwrap();
    assert_eq!(r, vec![("stackoverflow".to_string(), vec!["11828270".to_string()])]);
}

#[test]
fn parser_rejects_links_outside_the_sites() {
    let sites = site_pairs(&[("stackoverflow", "stackoverflow.com")]);
    match parse_questions_from_ddg_html(EXIT_VIM_HTML, &sites, 3) {
        Err(Error::ScrapingError(s)) => {
            assert_eq!(s, "Duckduckgo returned results outside of SE network")
        }
        other => panic!("unexpected {:?}", other),
    }
}

#[test]
fn candidates_reject_a_link_without_address() {
    let sites = site_pairs(&[("stackoverflow", "stackoverflow.com")]);
    let links = vec![None, Some("https://stackoverflow.com/questions/1/a".to_string())];
    match collect_candidates(&links, &sites, 3) {
        Err(Error::ScrapingError(s)) => assert_eq!(s, "Anchor with no href"),
        other => panic!("unexpected {:?}", other),
    }
}

#[test]
fn candidates_keep_duplicate_ids() {
    let sites = site_pairs(&[("su", "superuser.com")]);
    let links = vec![
        Some("https://superuser.com/questions/7/a".to_string()),
        Some("https://superuser.com/questions/7/b".to_string()),
    ];
    let r = collect_candidates(&links, &sites, 5).unwrap();
    assert_eq!(r, vec![("su".to_string(), vec!["7".to_string(), "7".to_string()])]);
}

#[test]
fn empty_link_list_is_blocked() {
    let sites = site_pairs(&[("su", "superuser.com")]);
    match collect_candidates(&Vec::new(), &sites, 5) {
        Err(Error::ScrapingError(s)) => assert_eq!(s, "DuckDuckGo blocked this request"),
        other => panic!("unexpected {:?}", other),
    }
}

#[test]
fn text_helpers() {
    assert_eq!(split_exec("a/b//c", '/'), vec!["a", "b", "", "c"]);
    assert_eq!(split_exec("", '/'), vec![""]);
    assert_eq!(words_exec("  how\tdo  I\n"), vec!["how", "do", "I"]);
    assert_eq!(join_exec(&vec!["1".to_string(), "2".to_string()], ";"), "1;2");
    assert_eq!(decimal_string(0), "0");
    assert_eq!(decimal_string(10000), "10000");
    assert_eq!(decimal_string(u64::MAX), u64::MAX.to_string());
}

#[test]
fn question_endpoint_joins_ids() {
    let ids = vec!["11828270".to_string(), "9171356".to_string()];
    assert_eq!(questions_endpoint(&ids), "questions/11828270;9171356");
    let url = stackexchange_url(&questions_endpoint(&ids)).unwrap();
    assert_eq!(url, "http://api.stackexchange.com/2.2/questions/11828270;9171356");
}

fn storage() -> LocalStorage {
    LocalStorage {
        sites: vec![
            Site { api_site_parameter: "stackoverflow".into(), site_url: "stackoverflow.com".into() },
            Site { api_site_parameter: "askubuntu".into(), site_url: "askubuntu.com".into() },
            Site { api_site_parameter: "unix".into(), site_url: "unix.stackexchange.com".into() },
        ],
    }
}

#[test]
fn site_directory_lookups() {
    let ls = storage();
    let codes = vec!["unix".to_string(), "stackoverflow".to_string()];
    assert_eq!(ls.find_invalid_site(&codes), None);
    assert_eq!(
        ls.get_urls(&codes),
        site_pairs(&[("stackoverflow", "stackoverflow.com"), ("unix", "unix.stackexchange.com")])
    );
    let bad = vec!["unix".to_string(), "nope".to_string(), "also-nope".to_string()];
    assert_eq!(ls.find_invalid_site(&bad).map(|s| s.as_str()), Some("nope"));
}

#[test]
fn site_domains_drop_scheme() {
    let s = normalize_site(Site { api_site_parameter: "so".into(), site_url: "https://stackoverflow.com".into() });
    assert_eq!(s.site_url, "stackoverflow.com");
    assert_eq!(s.api_site_parameter, "so");
    let s = normalize_site(Site { api_site_parameter: "x".into(), site_url: "http://x.com".into() });
    assert_eq!(s.site_url, "http://x.com");
}

#[test]
fn request_parameters() {
    let mut c = config(&["stackoverflow"], false);
    c.api_key = Some("abc".to_string());
    let se = StackExchange::new(c, storage(), "exit vim".to_string());
    let p = se.search_advanced_params("stackoverflow", 20);
    let expected = site_pairs(&[
        ("filter", ".DND5X2VHHUH8HyJzpjo)5NvdHI3w6auG"),
        ("key", "abc"),
        ("q", "exit vim"),
        ("pagesize", "20"),
        ("site", "stackoverflow"),
        ("page", "1"),
        ("answers", "1"),
        ("order", "desc"),
        ("sort", "relevance"),
    ]);
    assert_eq!(p, expected);
    let ids = vec!["1".to_string(), "2".to_string(), "3".to_string()];
    let se2 = StackExchange::new(config(&["askubuntu"], true), storage(), String::new());
    assert_eq!(
        se2.questions_params("askubuntu", &ids),
        site_pairs(&[("filter", ".DND5X2VHHUH8HyJzpjo)5NvdHI3w6auG"), ("site", "askubuntu"), ("pagesize", "3"), ("page", "1")])
    );
}

#[test]
fn lucky_search_uses_first_site_only_without_discovery() {
    let se = StackExchange::new(config(&["unix", "askubuntu"], false), storage(), "q".to_string());
    let l = se.lucky();
    assert_eq!(l.config.limit, 1);
    assert_eq!(l.config.sites, vec!["unix".to_string()]);
    assert_eq!(se.config.sites.len(), 2);
    assert_eq!(se.config.limit, 20);
    let se = StackExchange::new(config(&["unix", "askubuntu"], true), storage(), "q".to_string());
    let l = se.lucky();
    assert_eq!(l.config.sites.len(), 2);
    assert_eq!(l.site_domains(), vec!["askubuntu.com".to_string(), "unix.stackexchange.com".to_string()]);
}

#[test]
fn answers_sorted_by_score_after_preprocess() {
    let qs = vec![question(1, 3, vec![answer(1, 2, "a"), answer(2, 9, "b"), answer(3, 2, "c"), answer(4, -1, "d")])];
    let r = preprocess(qs);
    let scores: Vec<i32> = r[0].answers.iter().map(|a| a.score).collect();
    assert_eq!(scores, vec![9, 2, 2, -1]);
    let ids: Vec<u32> = r[0].answers.iter().map(|a| a.id).collect();
    assert_eq!(ids, vec![2, 1, 3, 4]);
}

#[test]
fn multi_site_merge_orders_by_score() {
    let se = StackExchange::new(config(&["unix", "askubuntu"], false), storage(), "q".to_string());
    let rs = vec![Ok(vec![question(1, 1, vec![]), question(2, 7, vec![])]), Ok(vec![question(3, 4, vec![])])];
    let scores: Vec<i32> = se.merge_direct(rs).unwrap().iter().map(|q| q.score).collect();
    assert_eq!(scores, vec![7, 4, 1]);
    let single = StackExchange::new(config(&["unix"], false), storage(), "q".to_string());
    let rs = vec![Ok(vec![question(1, 1, vec![]), question(2, 7, vec![])])];
    let scores: Vec<i32> = single.merge_direct(rs).unwrap().iter().map(|q| q.score).collect();
    assert_eq!(scores, vec![1, 7]);
}

#[test]
fn merge_fails_when_any_site_fails() {
    let rs = vec![
        Ok(vec![question(1, 1, vec![])]),
        Err(Error::Network("down".to_string())),
        Ok(vec![question(2, 2, vec![])]),
    ];
    assert!(matches!(merge_results(rs, true), Err(Error::Network(_))));
    let rs: Vec<Result<Vec<Question>, Error>> = vec![Err(Error::NoResults)];
    assert!(matches!(merge_results(rs, false), Err(Error::NoResults)));
    let rs: Vec<Result<Vec<Question>, Error>> = vec![];
    assert_eq!(merge_results(rs, false).unwrap().len(), 0);
}

#[test]
fn sort_is_stable_for_equal_scores() {
    let mut v = vec![answer(1, 5, ""), answer(2, 5, ""), answer(3, 6, "")];
    sort_by_score(&mut v);
    let ids: Vec<u32> = v.iter().map(|a| a.id).collect();
    assert_eq!(ids, vec![3, 1, 2]);
}

#[test]
fn lucky_answer_outcomes() {
    assert!(matches!(lucky_answer(vec![]), Err(Error::NoResults)));
    match lucky_answer(vec![question(1, 1, vec![])]) {
        Err(Error::StackExchange(m)) => assert_eq!(m, "Received question with no answers"),
        other => panic!("unexpected {:?}", other),
    }
    let qs = preprocess(vec![question(1, 1, vec![answer(1, 0, "low"), answer(2, 5, "top")]), question(2, 0, vec![answer(3, 9, "other")])]);
    assert_eq!(lucky_answer(qs).unwrap(), "top");
}

#[test]
fn discovery_query_text() {
    let sites = vec![String::from("stackoverflow.com"), String::from("unix.stackexchange.com")];
    assert_eq!(
        ddg_query_exec("how do I exit vim?", &sites),
        "(site:stackoverflow.com OR site:unix.stackexchange.com) how do I exit vim"
    );
    assert_eq!(ddg_query_exec("  why?? ", &vec![String::from("a.com")]), "(site:a.com) why??");
    assert_eq!(ddg_query_exec("why??", &vec![]), "() why");
}
