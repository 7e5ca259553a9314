//! Retrieval of questions and answers from the StackExchange network, either
//! by keyword search on each site or by discovering question ids through
//! DuckDuckGo, with ranking and lucky-answer selection.
pub mod discovery;
pub mod model;
pub mod ranking;
pub mod search;
pub mod text;
pub mod urls;
