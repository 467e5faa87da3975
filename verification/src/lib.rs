//! A small HTTP gateway library: routes an inbound request to a configured
//! backend service by path pattern, gates it on a remote authorization
//! decision, and describes the downstream request and the response (or the
//! synthesized error response) that the caller receives.
//!
//! The library is the decision core of the gateway: every network exchange
//! (the authorization call, the forward to the backend) is performed by the
//! surrounding program, which hands the outcome back as a plain value.

pub mod config;
pub mod http;
pub mod pattern;
pub mod service;
