//! Verified core of a pink-style confidential-contract runtime client:
//! the capability bridge to host-provided operations, the driver registry
//! with delegate invocation, the tagged-value codec used at the delegate
//! boundary, and the scoped tag stack for logging context.

pub mod adv_cases;
pub mod bridge;
pub mod cache;
pub mod flipper;
pub mod http_proxy;
pub mod log_test;
pub mod logtest;
pub mod phat_hello;
pub mod qjs_test;
pub mod signing;
pub mod use_cache;
pub mod codec;
pub mod invoke;
pub mod logging;
pub mod registry;

