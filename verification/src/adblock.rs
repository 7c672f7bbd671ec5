//! A URL-based ad and tracker blocker.
//!
//! A URL is blocked when its lower-case form contains one of the known ad or
//! tracker domains, or one of the URL fragments that mark an ad or tracking
//! request.
use vstd::prelude::*;
use crate::text::{chars_of, contains, contains_chars, lowercase, str_to_lowercase};

verus! {

/// The views of a sequence of owned strings.
pub open spec fn views(v: Seq<String>) -> Seq<Seq<char>> {
    v.map_values(|s: String| s@)
}

/// Whether a (lower-cased) URL contains one of the domains or fragments.
pub open spec fn url_blocked(lower: Seq<char>, domains: Seq<Seq<char>>, patterns: Seq<Seq<char>>) -> bool {
    ||| exists|i: int| 0 <= i < domains.len() && contains(lower, #[trigger] domains[i])
    ||| exists|j: int| 0 <= j < patterns.len() && contains(lower, #[trigger] patterns[j])
}

/// The ad, tracker and analytics domains that are blocked.
pub open spec fn default_blocked_domains() -> Seq<Seq<char>> {
    seq![
        "doubleclick.net"@,
        "googlesyndication.com"@,
        "googleadservices.com"@,
        "google-analytics.com"@,
        "googletagmanager.com"@,
        "adservice.google.com"@,
        "pagead2.googlesyndication.com"@,
        "facebook.net"@,
        "facebook.com/tr"@,
        "connect.facebook.net"@,
        "analytics.twitter.com"@,
        "ads-twitter.com"@,
        "pixel.quantserve.com"@,
        "scorecardresearch.com"@,
        "comscore.net"@,
        "comscore.com"@,
        "hotjar.com"@,
        "mouseflow.com"@,
        "crazyegg.com"@,
        "adnxs.com"@,
        "rubiconproject.com"@,
        "criteo.com"@,
        "criteo.net"@,
        "pubmatic.com"@,
        "openx.net"@,
        "sharethrough.com"@,
        "indexww.com"@,
        "casalemedia.com"@,
        "contextweb.com"@,
        "platform.twitter.com"@,
        "platform.instagram.com"@,
        "static.xx.fbcdn.net"@,
        "sdk.scdn.co"@,
        "coin-hive.com"@,
        "coinhive.com"@,
        "advertising.com"@,
        "atdmt.com"@,
        "media.net"@,
        "outbrain.com"@,
        "taboola.com"@,
        "revcontent.com"@,
        "amplitude.com"@,
        "segment.io"@,
        "segment.com"@,
        "mixpanel.com"@,
        "heap.io"@,
        "fullstory.com"@,
        "clicky.com"@,
        "matomo.org"@,
        "piwik.org"@,
        "sentry.io"@,
        "datadoghq.com"@,
    ]
}

/// The URL fragments that mark an ad or tracking request.
pub open spec fn default_blocked_patterns() -> Seq<Seq<char>> {
    seq![
        "/ads/"@,
        "/ad/"@,
        "/banners/"@,
        "/analytics/"@,
        "/pixel."@,
        "utm_source="@,
        "utm_medium="@,
        "utm_campaign="@,
        "fbclid="@,
        "gclid="@,
        "_ga="@,
    ]
}

/// The blocked domains, as owned strings.
fn blocked_domain_list() -> (v: Vec<String>)
    ensures
        views(v@) == default_blocked_domains(),
{
    let mut v: Vec<String> = Vec::new();
    v.push(String::from_str("doubleclick.net"));
    v.push(String::from_str("googlesyndication.com"));
    v.push(String::from_str("googleadservices.com"));
    v.push(String::from_str("google-analytics.com"));
    v.push(String::from_str("googletagmanager.com"));
    v.push(String::from_str("adservice.google.com"));
    v.push(String::from_str("pagead2.googlesyndication.com"));
    v.push(String::from_str("facebook.net"));
    v.push(String::from_str("facebook.com/tr"));
    v.push(String::from_str("connect.facebook.net"));
    v.push(String::from_str("analytics.twitter.com"));
    v.push(String::from_str("ads-twitter.com"));
    v.push(String::from_str("pixel.quantserve.com"));
    v.push(String::from_str("scorecardresearch.com"));
    v.push(String::from_str("comscore.net"));
    v.push(String::from_str("comscore.com"));
    v.push(String::from_str("hotjar.com"));
    v.push(String::from_str("mouseflow.com"));
    v.push(String::from_str("crazyegg.com"));
    v.push(String::from_str("adnxs.com"));
    v.push(String::from_str("rubiconproject.com"));
    v.push(String::from_str("criteo.com"));
    v.push(String::from_str("criteo.net"));
    v.push(String::from_str("pubmatic.com"));
    v.push(String::from_str("openx.net"));
    v.push(String::from_str("sharethrough.com"));
    v.push(String::from_str("indexww.com"));
    v.push(String::from_str("casalemedia.com"));
    v.push(String::from_str("contextweb.com"));
    v.push(String::from_str("platform.twitter.com"));
    v.push(String::from_str("platform.instagram.com"));
    v.push(String::from_str("static.xx.fbcdn.net"));
    v.push(String::from_str("sdk.scdn.co"));
    v.push(String::from_str("coin-hive.com"));
    v.push(String::from_str("coinhive.com"));
    v.push(String::from_str("advertising.com"));
    v.push(String::from_str("atdmt.com"));
    v.push(String::from_str("media.net"));
    v.push(String::from_str("outbrain.com"));
    v.push(String::from_str("taboola.com"));
    v.push(String::from_str("revcontent.com"));
    v.push(String::from_str("amplitude.com"));
    v.push(String::from_str("segment.io"));
    v.push(String::from_str("segment.com"));
    v.push(String::from_str("mixpanel.com"));
    v.push(String::from_str("heap.io"));
    v.push(String::from_str("fullstory.com"));
    v.push(String::from_str("clicky.com"));
    v.push(String::from_str("matomo.org"));
    v.push(String::from_str("piwik.org"));
    v.push(String::from_str("sentry.io"));
    v.push(String::from_str("datadoghq.com"));
    assert(views(v@) =~= default_blocked_domains());
    v
}

/// The blocked URL fragments, as owned strings.
fn blocked_pattern_list() -> (v: Vec<String>)
    ensures
        views(v@) == default_blocked_patterns(),
{
    let mut v: Vec<String> = Vec::new();
    v.push(String::from_str("/ads/"));
    v.push(String::from_str("/ad/"));
    v.push(String::from_str("/banners/"));
    v.push(String::from_str("/analytics/"));
    v.push(String::from_str("/pixel."));
    v.push(String::from_str("utm_source="));
    v.push(String::from_str("utm_medium="));
    v.push(String::from_str("utm_campaign="));
    v.push(String::from_str("fbclid="));
    v.push(String::from_str("gclid="));
    v.push(String::from_str("_ga="));
    assert(views(v@) =~= default_blocked_patterns());
    v
}

/// Blocks requests whose URL names a known ad or tracker domain or carries a
/// known ad or tracking fragment.
pub struct AdBlocker {
    blocked_domains: Vec<String>,
    blocked_patterns: Vec<String>,
}

impl View for AdBlocker {
    type V = (Seq<Seq<char>>, Seq<Seq<char>>);

    /// The blocked domains and the blocked URL fragments.
    closed spec fn view(&self) -> Self::V {
        (views(self.blocked_domains@), views(self.blocked_patterns@))
    }
}

/// Whether any of the strings occurs in the characters `hay`.
fn any_occurs(hay: &[char], needles: &Vec<String>) -> (b: bool)
    ensures
        b == exists|i: int| 0 <= i < needles@.len() && contains(hay@, #[trigger] views(needles@)[i]),
{
    let mut i: usize = 0;
    while i < needles.len()
        invariant
            i <= needles@.len(),
            forall|k: int| 0 <= k < i ==> !contains(hay@, #[trigger] views(needles@)[k]),
        decreases needles.len() - i,
    {
        let needle = chars_of(needles[i].as_str());
        if contains_chars(hay, needle.as_slice()) {
            assert(contains(hay@, views(needles@)[i as int]));
            return true;
        }
        i += 1;
    }
    false
}

impl AdBlocker {
    /// A blocker with the built-in domain and fragment lists.
    pub fn new() -> (ab: Self)
        ensures
            ab@.0 == default_blocked_domains(),
            ab@.1 == default_blocked_patterns(),
    {
        AdBlocker { blocked_domains: blocked_domain_list(), blocked_patterns: blocked_pattern_list() }
    }

    /// Whether the URL is blocked: its lower-case form contains a blocked
    /// domain or a blocked fragment.
    pub fn is_blocked(&self, url: &str) -> (b: bool)
        ensures
            b == url_blocked(lowercase(url@), self@.0, self@.1),
    {
        let lower = str_to_lowercase(url);
        let lc = chars_of(lower.as_str());
        if any_occurs(lc.as_slice(), &self.blocked_domains) {
            return true;
        }
        any_occurs(lc.as_slice(), &self.blocked_patterns)
    }
}

} // verus!
