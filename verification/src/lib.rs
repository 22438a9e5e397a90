//! Helpers for running a web service on a serverless worker platform:
//! identifiers and tokens, timestamps, response envelopes, pagination,
//! token finders, cache and rate-limit stores, and source rewriting for
//! API documentation.
pub mod random;
pub mod text;
pub mod middleware;
pub mod service;
pub mod catch;
pub mod lark;
pub mod form;
pub mod cache;
pub mod rate_limiter;
pub mod finder;
pub mod response;
pub mod page;
pub mod datetime;
pub mod open_api;
pub mod display;
pub mod doc_ui;
pub mod proxy;
pub mod release_laws;
