//! What a page fetch gives back, and how a fetch is decided.
//!
//! The network and the headless browser are driven by the program around
//! this library; here is what it hands back, and the rule that picks how a
//! page is fetched.
use vstd::prelude::*;
use crate::adblock::{url_blocked, AdBlocker};
use crate::text::lowercase;

verus! {

/// The outcome of a fetch.
pub enum FetchResult {
    /// A plain HTTP fetch, without running scripts.
    Http {
        html: String,
        final_url: String,
        status: u16,
        headers: Vec<(String, String)>,
    },
    /// A fetch by headless Chromium, with scripts run.
    Headless {
        html: String,
    },
    /// The ad blocker refused the address.
    Blocked,
}

/// How a page is to be fetched.
#[derive(Debug, PartialEq, Eq, Structural, Clone, Copy)]
pub enum FetchPlan {
    /// Not at all: the ad blocker refuses the address.
    Blocked,
    /// With headless Chromium.
    Headless,
    /// With a plain HTTP request.
    Http,
}

/// How a page is fetched: a blocked address is not fetched when ad
/// blocking is on; otherwise headless Chromium is used when asked for, else a
/// plain HTTP request.
pub open spec fn fetch_plan(blocker: AdBlocker, adblock_enabled: bool, url: Seq<char>, use_headless: bool) -> FetchPlan {
    if adblock_enabled && url_blocked(lowercase(url), blocker@.0, blocker@.1) {
        FetchPlan::Blocked
    } else if use_headless {
        FetchPlan::Headless
    } else {
        FetchPlan::Http
    }
}

/// Decides how a page is fetched.
pub fn plan_fetch(blocker: &AdBlocker, adblock_enabled: bool, url: &str, use_headless: bool) -> (p: FetchPlan)
    ensures
        p == fetch_plan(*blocker, adblock_enabled, url@, use_headless),
{
    if adblock_enabled && blocker.is_blocked(url) {
        FetchPlan::Blocked
    } else if use_headless {
        FetchPlan::Headless
    } else {
        FetchPlan::Http
    }
}

/// Whether requests go through a proxy: only when it is switched on and has
/// an address.
pub fn uses_proxy(config: &crate::config::Config) -> (b: bool)
    ensures
        b == (config.proxy_enabled && config.proxy_url@.len() > 0),
{
    config.proxy_enabled && !config.proxy_url.as_str().is_empty()
}

} // verus!
