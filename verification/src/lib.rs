//! Verified core of an authentication-bridge proxy.
//!
//! The library models requests, policies and workload identity as plain
//! values, decides admission of each request against an ordered set of
//! declarative policies, and rewrites admitted requests with credential
//! material.  The surrounding process (TLS interception, cluster watches,
//! secret fetches) lives outside and talks to this crate through plain
//! values.

pub mod strutil;
pub mod kv;
pub mod json_text;
pub mod pod_meta;
pub mod proxy_policy;
pub mod request;
pub mod provider;
pub mod admission;
pub mod injector;
pub mod handlers;
