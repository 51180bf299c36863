//! Core of a polite, resumable web crawler: robots.txt rules, link
//! classification, the fetch state machine, the URL frontier, per-host
//! politeness and the crawl engine that ties them together.

pub mod text;
pub mod numbers;
pub mod web_url;
pub mod fetch;
pub mod check_robots;
pub mod html;
pub mod extract_links;
pub mod extract_metadata;
pub mod content_hash;
pub mod frontier;
pub mod politeness;
pub mod engine;
pub mod crawl_run;
pub mod printer;
pub mod commands;

