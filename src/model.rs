//! The data the library works on: sites, questions, answers, the search
//! configuration and the errors a search can end in.
use vstd::prelude::*;

verus! {

/// One site of the StackExchange network.
#[derive(Clone, Debug)]
pub struct Site {
    /// The short code by which the API names the site (`stackoverflow`).
    pub api_site_parameter: String,
    /// The site's domain (`stackoverflow.com`).
    pub site_url: String,
}

/// An answer, with the fields the search asks the API for.
#[derive(Clone, Debug)]
pub struct Answer {
    pub id: u32,
    pub score: i32,
    pub body: String,
    pub is_accepted: bool,
}

/// A question with its answers.
#[derive(Clone, Debug)]
pub struct Question {
    pub id: u32,
    pub score: i32,
    pub answers: Vec<Answer>,
    pub title: String,
    pub body: String,
}

/// What a search is asked to do.
#[derive(Clone, Debug)]
pub struct Config {
    /// Key sent to the API, if any.
    pub api_key: Option<String>,
    /// How many questions to ask for per site, or in all when discovering.
    pub limit: u16,
    /// The codes of the sites to search, in order of preference.
    pub sites: Vec<String>,
    /// Whether to discover questions through DuckDuckGo.
    pub duckduckgo: bool,
}

/// The ways a search can fail.
#[derive(Clone, Debug)]
pub enum Error {
    /// The search page could not be read; the message says why.
    ScrapingError(String),
    /// The API sent something the search cannot use.
    StackExchange(String),
    /// The search found no question.
    NoResults,
    /// A request could not be sent or its answer not be read.
    Network(String),
    /// A response was not the JSON the search expects.
    MalformedResponse(String),
}

} // verus!
