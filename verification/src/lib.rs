//! The request execution core of a command-line client for hosted product
//! APIs, with the small pieces of logic that its commands share.
//!
//! The core turns "call this endpoint" into a dependable operation under
//! rate limits, transient failures and bulk load:
//!
//! - [`error`]: the failures a request can end in, and which are transient;
//! - [`ratelimit`]: the quota that the server reports, and the wait it
//!   calls for;
//! - [`retry`]: which failures are tried again, and how often;
//! - [`request`]: where a request goes, how its answer is classified, and
//!   the course of a request from start to end;
//! - [`pagination`]: walking a listing page by page, with or without a
//!   ceiling on the items;
//! - [`bulk`]: one job over many items, with a ceiling on the jobs in
//!   flight, a dry-run mode and two ways of reporting failures.
//!
//! Nothing here touches the network, sleeps or prints. Where that is
//! called for, the library says what is to be done (a request to send, a
//! pause to make, a line to show) and takes in what came of it; callers
//! that run on an async runtime use the step-by-step forms
//! ([`retry::RetryState`], [`request::ApiClient::conclude_attempt`],
//! [`pagination::PageCollector`], [`bulk::Scheduler`]), others the
//! functions that take the transport as a closure.
//!
//! Beside the core stand query builders ([`query`]), the configuration with
//! its profiles ([`config`]), the shaping of output ([`output`]), and helpers
//! of single commands ([`pipelines`], [`bitbucket`], [`labels`], [`jsm`], [`product`],
//! [`auth`]), on top of shared text and number routines ([`text`],
//! [`decimal`], [`urls`]).

pub mod auth;
pub mod bitbucket;
pub mod bulk;
pub mod config;
pub mod decimal;
pub mod error;
pub mod jsm;
pub mod labels;
pub mod output;
pub mod pagination;
pub mod pipelines;
pub mod product;
pub mod query;
pub mod ratelimit;
pub mod request;
pub mod retry;
pub mod text;
pub mod urls;
