//! Bookmarks, browsing history and the settings, kept in memory.
//!
//! The rules live here: a URL is bookmarked at most once, both lists drop
//! their oldest entry when they outgrow the configured limit, privacy mode
//! records no history, and history is listed and searched newest first.
//! Reading and writing the files, and reading the clock for the time stamps,
//! are left to the caller, which hands the time stamps in.
use vstd::prelude::*;
use crate::config::{Config, SCHEMA_VERSION};
use crate::text::{chars_of, chars_equal, contains, contains_chars, lowercase, str_to_lowercase};

verus! {

/// A bookmarked page.
pub struct Bookmark {
    pub title: String,
    pub url: String,
    pub created_at: String,
}

/// A visited page.
pub struct HistoryEntry {
    pub title: String,
    pub url: String,
    pub visited_at: String,
}

impl View for Bookmark {
    /// Title, URL and creation time.
    type V = (Seq<char>, Seq<char>, Seq<char>);

    open spec fn view(&self) -> Self::V {
        (self.title@, self.url@, self.created_at@)
    }
}

impl View for HistoryEntry {
    /// Title, URL and visit time.
    type V = (Seq<char>, Seq<char>, Seq<char>);

    open spec fn view(&self) -> Self::V {
        (self.title@, self.url@, self.visited_at@)
    }
}

impl Clone for Bookmark {
    fn clone(&self) -> (b: Self)
        ensures
            b@ == self@,
    {
        Bookmark { title: self.title.clone(), url: self.url.clone(), created_at: self.created_at.clone() }
    }
}

impl Clone for HistoryEntry {
    fn clone(&self) -> (h: Self)
        ensures
            h@ == self@,
    {
        HistoryEntry { title: self.title.clone(), url: self.url.clone(), visited_at: self.visited_at.clone() }
    }
}

/// A title, a URL and a time stamp.
pub type Entry = (Seq<char>, Seq<char>, Seq<char>);

/// The views of a sequence of bookmarks.
pub open spec fn bookmark_views(v: Seq<Bookmark>) -> Seq<Entry> {
    v.map_values(|b: Bookmark| b@)
}

/// The views of a sequence of history entries.
pub open spec fn history_views(v: Seq<HistoryEntry>) -> Seq<Entry> {
    v.map_values(|h: HistoryEntry| h@)
}

/// Some entry has this URL.
pub open spec fn has_url(entries: Seq<Entry>, url: Seq<char>) -> bool {
    exists|i: int| 0 <= i < entries.len() && (#[trigger] entries[i]).1 == url
}

/// The list after appending an entry and, if it then holds more than `max`
/// entries, dropping the oldest one.
pub open spec fn push_capped(entries: Seq<Entry>, e: Entry, max: nat) -> Seq<Entry> {
    let pushed = entries.push(e);
    if pushed.len() > max {
        pushed.drop_first()
    } else {
        pushed
    }
}

/// The bookmarks after adding a page: unchanged if the URL is already
/// bookmarked, otherwise the page is appended under the limit.
pub open spec fn bookmarks_after_add(bms: Seq<Entry>, e: Entry, max: nat) -> Seq<Entry> {
    if has_url(bms, e.1) {
        bms
    } else {
        push_capped(bms, e, max)
    }
}

/// The bookmarks without those for the URL.
pub open spec fn bookmarks_after_remove(bms: Seq<Entry>, url: Seq<char>) -> Seq<Entry> {
    bms.filter(other_url(url))
}

/// The entry is for another URL.
pub open spec fn other_url(url: Seq<char>) -> spec_fn(Entry) -> bool {
    |b: Entry| b.1 != url
}

/// The entry matches the lower-cased query.
pub open spec fn matches_query(q: Seq<char>) -> spec_fn(Entry) -> bool {
    |e: Entry| entry_matches(e, q)
}

/// The history after a visit: unchanged in privacy mode, otherwise the visit
/// is appended under the limit.
pub open spec fn history_after_visit(hist: Seq<Entry>, e: Entry, privacy: bool, max: nat) -> Seq<Entry> {
    if privacy {
        hist
    } else {
        push_capped(hist, e, max)
    }
}

/// The most recent `limit` entries, newest first.
pub open spec fn newest(entries: Seq<Entry>, limit: nat) -> Seq<Entry> {
    let rev = entries.reverse();
    if limit < rev.len() {
        rev.take(limit as int)
    } else {
        rev
    }
}

/// An entry matches a lower-cased query when the lower-cased title or URL
/// contains it.
pub open spec fn entry_matches(e: Entry, q: Seq<char>) -> bool {
    contains(lowercase(e.0), q) || contains(lowercase(e.1), q)
}

/// The entries that match the lower-cased query, newest first.
pub open spec fn matching_newest_first(entries: Seq<Entry>, q: Seq<char>) -> Seq<Entry> {
    entries.filter(matches_query(q)).reverse()
}

/// The result of a history search: at most 100 matches, newest first.
pub open spec fn search_result(entries: Seq<Entry>, query: Seq<char>) -> Seq<Entry> {
    let all = matching_newest_first(entries, lowercase(query));
    if all.len() > 100 {
        all.take(100)
    } else {
        all
    }
}

/// A change to the settings made from the settings screen.
pub enum ConfigChange {
    /// The search URL, with `{}` where the query goes.
    SearchEngine(String),
    Homepage(String),
    Adblock(bool),
    Privacy(bool),
    /// Whether a proxy is used, and its address.
    Proxy(bool, String),
}

/// The settings after a change.
pub open spec fn changed_config(c: Config, change: ConfigChange) -> Config {
    match change {
        ConfigChange::SearchEngine(url) => Config { search_engine: url, ..c },
        ConfigChange::Homepage(url) => Config { homepage: url, ..c },
        ConfigChange::Adblock(on) => Config { adblock_enabled: on, ..c },
        ConfigChange::Privacy(on) => Config { privacy_mode: on, ..c },
        ConfigChange::Proxy(on, url) => Config { proxy_enabled: on, proxy_url: url, ..c },
    }
}

/// Bookmarks, history and settings.
pub struct Storage {
    config: Config,
    bookmarks: Vec<Bookmark>,
    history: Vec<HistoryEntry>,
}

/// A copy of a sequence of bookmarks.
fn copy_bookmarks(v: &Vec<Bookmark>) -> (r: Vec<Bookmark>)
    ensures
        bookmark_views(r@) == bookmark_views(v@),
{
    let mut r: Vec<Bookmark> = Vec::new();
    let mut i: usize = 0;
    while i < v.len()
        invariant
            i <= v@.len(),
            bookmark_views(r@) == bookmark_views(v@).take(i as int),
        decreases v.len() - i,
    {
        let ghost before = bookmark_views(r@);
        let b = v[i].clone();
        r.push(b);
        assert(bookmark_views(r@) =~= before.push(v@[i as int]@));
        i += 1;
        assert(bookmark_views(r@) =~= bookmark_views(v@).take(i as int));
    }
    assert(bookmark_views(v@).take(i as int) =~= bookmark_views(v@));
    r
}

impl Storage {
    /// The settings.
    pub closed spec fn cfg(&self) -> Config {
        self.config
    }

    /// The bookmarks, oldest first.
    pub closed spec fn bookmark_list(&self) -> Seq<Entry> {
        bookmark_views(self.bookmarks@)
    }

    /// The history, oldest first.
    pub closed spec fn history_list(&self) -> Seq<Entry> {
        history_views(self.history@)
    }

    /// An empty store with the default settings.
    pub fn new() -> (s: Self)
        ensures
            s.cfg().is_default(),
            s.bookmark_list() == Seq::<Entry>::empty(),
            s.history_list() == Seq::<Entry>::empty(),
    {
        let s = Storage { config: Config::default(), bookmarks: Vec::new(), history: Vec::new() };
        assert(bookmark_views(s.bookmarks@) =~= Seq::<Entry>::empty());
        assert(history_views(s.history@) =~= Seq::<Entry>::empty());
        s
    }

    /// A copy of the settings.
    pub fn config(&self) -> (c: Config)
        ensures
            c.same_as(self.cfg()),
    {
        self.config.duplicate()
    }

    /// Replaces the settings.
    pub fn save_config(&mut self, config: &Config)
        ensures
            final(self).cfg().same_as(*config),
            final(self).bookmark_list() == old(self).bookmark_list(),
            final(self).history_list() == old(self).history_list(),
    {
        self.config = config.duplicate();
    }

    /// Takes settings read from disk, but only if they are of the current
    /// layout version; returns whether they were taken.
    pub fn load_config(&mut self, config: Config) -> (taken: bool)
        ensures
            taken == (config.schema_version == SCHEMA_VERSION),
            taken ==> final(self).cfg() == config,
            !taken ==> final(self).cfg() == old(self).cfg(),
            final(self).bookmark_list() == old(self).bookmark_list(),
            final(self).history_list() == old(self).history_list(),
    {
        if config.schema_version == SCHEMA_VERSION {
            self.config = config;
            true
        } else {
            false
        }
    }

    /// Replaces the bookmarks with a list read from disk.
    pub fn load_bookmarks(&mut self, bookmarks: Vec<Bookmark>)
        ensures
            final(self).bookmark_list() == bookmark_views(bookmarks@),
            final(self).history_list() == old(self).history_list(),
            final(self).cfg() == old(self).cfg(),
    {
        self.bookmarks = bookmarks;
    }

    /// Replaces the history with a list read from disk.
    pub fn load_history(&mut self, history: Vec<HistoryEntry>)
        ensures
            final(self).history_list() == history_views(history@),
            final(self).bookmark_list() == old(self).bookmark_list(),
            final(self).cfg() == old(self).cfg(),
    {
        self.history = history;
    }

    /// A copy of the bookmarks, oldest first.
    pub fn bookmarks(&self) -> (r: Vec<Bookmark>)
        ensures
            bookmark_views(r@) == self.bookmark_list(),
    {
        copy_bookmarks(&self.bookmarks)
    }

    /// A copy of the whole history, oldest first.
    pub fn all_history(&self) -> (r: Vec<HistoryEntry>)
        ensures
            history_views(r@) == self.history_list(),
    {
        let mut r: Vec<HistoryEntry> = Vec::new();
        let mut i: usize = 0;
        while i < self.history.len()
            invariant
                i <= self.history@.len(),
                history_views(r@) == history_views(self.history@).take(i as int),
            decreases self.history.len() - i,
        {
            let ghost before = history_views(r@);
            let h = self.history[i].clone();
            r.push(h);
            assert(history_views(r@) =~= before.push(self.history@[i as int]@));
            i += 1;
            assert(history_views(r@) =~= history_views(self.history@).take(i as int));
        }
        assert(history_views(self.history@).take(i as int) =~= history_views(self.history@));
        r
    }

    /// Whether a bookmark has this URL.
    pub fn is_bookmarked(&self, url: &str) -> (b: bool)
        ensures
            b == has_url(self.bookmark_list(), url@),
    {
        let want = chars_of(url);
        let mut i: usize = 0;
        while i < self.bookmarks.len()
            invariant
                i <= self.bookmarks@.len(),
                want@ == url@,
                forall|k: int| 0 <= k < i ==> (#[trigger] bookmark_views(self.bookmarks@)[k]).1 != url@,
            decreases self.bookmarks.len() - i,
        {
            let u = chars_of(self.bookmarks[i].url.as_str());
            if chars_equal(u.as_slice(), want.as_slice()) {
                assert(bookmark_views(self.bookmarks@)[i as int].1 == url@);
                return true;
            }
            i += 1;
        }
        false
    }

    /// Bookmarks a page unless its URL is already bookmarked; when the list
    /// then holds more than `max_bookmarks` entries the oldest is dropped.
    /// Returns whether the list changed.
    pub fn add_bookmark(&mut self, title: &str, url: &str, created_at: &str) -> (changed: bool)
        ensures
            final(self).bookmark_list() == bookmarks_after_add(
                old(self).bookmark_list(),
                (title@, url@, created_at@),
                old(self).cfg().max_bookmarks as nat,
            ),
            changed == !has_url(old(self).bookmark_list(), url@),
            final(self).history_list() == old(self).history_list(),
            final(self).cfg() == old(self).cfg(),
    {
        if self.is_bookmarked(url) {
            return false;
        }
        let ghost before = bookmark_views(self.bookmarks@);
        self.bookmarks.push(
            Bookmark {
                title: String::from_str(title),
                url: String::from_str(url),
                created_at: String::from_str(created_at),
            },
        );
        assert(bookmark_views(self.bookmarks@) =~= before.push((title@, url@, created_at@)));
        if self.bookmarks.len() > self.config.max_bookmarks {
            let ghost pushed = bookmark_views(self.bookmarks@);
            self.bookmarks.remove(0);
            assert(bookmark_views(self.bookmarks@) =~= pushed.drop_first());
        }
        true
    }

    /// Removes every bookmark for the URL.
    pub fn remove_bookmark(&mut self, url: &str)
        ensures
            final(self).bookmark_list() == bookmarks_after_remove(old(self).bookmark_list(), url@),
            final(self).history_list() == old(self).history_list(),
            final(self).cfg() == old(self).cfg(),
    {
        let want = chars_of(url);
        let ghost all = bookmark_views(self.bookmarks@);
        let mut kept: Vec<Bookmark> = Vec::new();
        let mut i: usize = 0;
        while i < self.bookmarks.len()
            invariant
                i <= self.bookmarks@.len(),
                want@ == url@,
                all == bookmark_views(self.bookmarks@),
                bookmark_views(kept@) == all.take(i as int).filter(other_url(url@)),
            decreases self.bookmarks.len() - i,
        {
            proof {
                reveal(Seq::filter);
            }
            assert(all.take(i + 1 as int).drop_last() =~= all.take(i as int));
            assert(all.take(i + 1 as int).last() == all[i as int]);
            let u = chars_of(self.bookmarks[i].url.as_str());
            if !chars_equal(u.as_slice(), want.as_slice()) {
                let ghost before = bookmark_views(kept@);
                let b = self.bookmarks[i].clone();
                kept.push(b);
                assert(bookmark_views(kept@) =~= before.push(all[i as int]));
            }
            i += 1;
        }
        assert(all.take(i as int) =~= all);
        self.bookmarks = kept;
    }

    /// Removes the page's bookmark if there is one, otherwise bookmarks it.
    /// Returns whether the page was added.
    pub fn toggle_bookmark(&mut self, title: &str, url: &str, created_at: &str) -> (added: bool)
        ensures
            added == !has_url(old(self).bookmark_list(), url@),
            added ==> final(self).bookmark_list() == bookmarks_after_add(
                old(self).bookmark_list(),
                (title@, url@, created_at@),
                old(self).cfg().max_bookmarks as nat,
            ),
            !added ==> final(self).bookmark_list() == bookmarks_after_remove(
                old(self).bookmark_list(),
                url@,
            ),
            final(self).history_list() == old(self).history_list(),
            final(self).cfg() == old(self).cfg(),
    {
        if self.is_bookmarked(url) {
            self.remove_bookmark(url);
            false
        } else {
            self.add_bookmark(title, url, created_at);
            true
        }
    }

    /// The most recent `limit` visits, newest first.
    pub fn history(&self, limit: usize) -> (r: Vec<HistoryEntry>)
        ensures
            history_views(r@) == newest(self.history_list(), limit as nat),
    {
        let ghost all = history_views(self.history@);
        let n = self.history.len();
        let mut r: Vec<HistoryEntry> = Vec::new();
        let mut k: usize = 0;
        while k < n && k < limit
            invariant
                k <= n == self.history@.len(),
                k <= limit,
                all == history_views(self.history@),
                history_views(r@) == all.reverse().take(k as int),
            decreases n - k,
        {
            let ghost before = history_views(r@);
            let h = self.history[n - 1 - k].clone();
            r.push(h);
            assert(all.reverse()[k as int] == all[n - 1 - k]);
            assert(history_views(r@) =~= before.push(all.reverse()[k as int]));
            k += 1;
            assert(history_views(r@) =~= all.reverse().take(k as int));
        }
        assert(all.reverse().len() == n);
        if k == n {
            assert(all.reverse().take(k as int) =~= all.reverse());
        }
        r
    }

    /// At most 100 visits whose lower-cased title or URL contains the
    /// lower-cased query, newest first.
    pub fn search_history(&self, query: &str) -> (r: Vec<HistoryEntry>)
        ensures
            history_views(r@) == search_result(self.history_list(), query@),
    {
        let ql = str_to_lowercase(query);
        let q = chars_of(ql.as_str());
        let ghost all = history_views(self.history@);
        let ghost pred = matches_query(q@);
        let mut found: Vec<HistoryEntry> = Vec::new();
        let mut i: usize = 0;
        while i < self.history.len()
            invariant
                i <= self.history@.len(),
                all == history_views(self.history@),
                q@ == lowercase(query@),
                pred == matches_query(q@),
                history_views(found@) == all.take(i as int).filter(pred),
            decreases self.history.len() - i,
        {
            proof {
                reveal(Seq::filter);
            }
            assert(all.take(i + 1 as int).drop_last() =~= all.take(i as int));
            assert(all.take(i + 1 as int).last() == all[i as int]);
            let e = &self.history[i];
            let tl = str_to_lowercase(e.title.as_str());
            let ul = str_to_lowercase(e.url.as_str());
            let tc = chars_of(tl.as_str());
            let uc = chars_of(ul.as_str());
            if contains_chars(tc.as_slice(), q.as_slice()) || contains_chars(uc.as_slice(), q.as_slice()) {
                let ghost before = history_views(found@);
                let c = e.clone();
                found.push(c);
                assert(history_views(found@) =~= before.push(all[i as int]));
            }
            i += 1;
        }
        assert(all.take(i as int) =~= all);
        let ghost matched = history_views(found@);
        let n = found.len();
        let mut r: Vec<HistoryEntry> = Vec::new();
        let mut k: usize = 0;
        while k < n && k < 100
            invariant
                k <= n == found@.len(),
                k <= 100,
                matched == history_views(found@),
                history_views(r@) == matched.reverse().take(k as int),
            decreases n - k,
        {
            let ghost before = history_views(r@);
            let h = found[n - 1 - k].clone();
            r.push(h);
            assert(history_views(r@) =~= before.push(matched.reverse()[k as int]));
            k += 1;
            assert(history_views(r@) =~= matched.reverse().take(k as int));
        }
        assert(matched.reverse().len() == n);
        if k == n {
            assert(matched.reverse().take(k as int) =~= matched.reverse());
        }
        assert(matched == all.filter(matches_query(lowercase(query@))));
        r
    }

    /// Records a visit, except in privacy mode; when the history then holds
    /// more than `max_history` visits the oldest is dropped. Returns whether
    /// the history changed.
    pub fn add_history(&mut self, title: &str, url: &str, visited_at: &str) -> (changed: bool)
        ensures
            final(self).history_list() == history_after_visit(
                old(self).history_list(),
                (title@, url@, visited_at@),
                old(self).cfg().privacy_mode,
                old(self).cfg().max_history as nat,
            ),
            changed == !old(self).cfg().privacy_mode,
            final(self).bookmark_list() == old(self).bookmark_list(),
            final(self).cfg() == old(self).cfg(),
    {
        if self.config.privacy_mode {
            return false;
        }
        let ghost before = history_views(self.history@);
        self.history.push(
            HistoryEntry {
                title: String::from_str(title),
                url: String::from_str(url),
                visited_at: String::from_str(visited_at),
            },
        );
        assert(history_views(self.history@) =~= before.push((title@, url@, visited_at@)));
        if self.history.len() > self.config.max_history {
            let ghost pushed = history_views(self.history@);
            self.history.remove(0);
            assert(history_views(self.history@) =~= pushed.drop_first());
        }
        true
    }

    /// Changes one group of settings.
    pub fn update_config(&mut self, change: ConfigChange)
        ensures
            final(self).cfg() == changed_config(old(self).cfg(), change),
            final(self).bookmark_list() == old(self).bookmark_list(),
            final(self).history_list() == old(self).history_list(),
    {
        match change {
            ConfigChange::SearchEngine(url) => {
                self.config.search_engine = url;
            },
            ConfigChange::Homepage(url) => {
                self.config.homepage = url;
            },
            ConfigChange::Adblock(on) => {
                self.config.adblock_enabled = on;
            },
            ConfigChange::Privacy(on) => {
                self.config.privacy_mode = on;
            },
            ConfigChange::Proxy(on, url) => {
                self.config.proxy_enabled = on;
                self.config.proxy_url = url;
            },
        }
    }

    /// Forgets all visits.
    pub fn clear_history(&mut self)
        ensures
            final(self).history_list() == Seq::<Entry>::empty(),
            final(self).bookmark_list() == old(self).bookmark_list(),
            final(self).cfg() == old(self).cfg(),
    {
        self.history = Vec::new();
        assert(history_views(self.history@) =~= Seq::<Entry>::empty());
    }

    /// Forgets all bookmarks.
    pub fn clear_bookmarks(&mut self)
        ensures
            final(self).bookmark_list() == Seq::<Entry>::empty(),
            final(self).history_list() == old(self).history_list(),
            final(self).cfg() == old(self).cfg(),
    {
        self.bookmarks = Vec::new();
        assert(bookmark_views(self.bookmarks@) =~= Seq::<Entry>::empty());
    }
}

// ── Laws ───────────────────────────────────────────────────────────────────

/// No two entries share a URL.
pub open spec fn urls_distinct(entries: Seq<Entry>) -> bool {
    forall|i: int, j: int|
        0 <= i < entries.len() && 0 <= j < entries.len() && i != j ==> (#[trigger] entries[i]).1
            != (#[trigger] entries[j]).1
}

/// After a page is bookmarked its URL is bookmarked, as long as the limit
/// allows at least one bookmark.
pub proof fn law_added_bookmark_is_present(bms: Seq<Entry>, e: Entry, max: nat)
    requires
        max > 0,
    ensures
        has_url(bookmarks_after_add(bms, e, max), e.1),
{
    if !has_url(bms, e.1) {
        let pushed = bms.push(e);
        if pushed.len() > max {
            assert(pushed.drop_first()[pushed.len() - 2] == e);
        } else {
            assert(pushed[pushed.len() - 1] == e);
        }
    }
}

/// Adding a bookmark never makes two bookmarks share a URL.
pub proof fn law_add_keeps_urls_distinct(bms: Seq<Entry>, e: Entry, max: nat)
    requires
        urls_distinct(bms),
    ensures
        urls_distinct(bookmarks_after_add(bms, e, max)),
{
    if !has_url(bms, e.1) {
        let pushed = bms.push(e);
        assert(urls_distinct(pushed)) by {
            assert forall|i: int, j: int|
                0 <= i < pushed.len() && 0 <= j < pushed.len() && i != j implies (
            #[trigger] pushed[i]).1 != (#[trigger] pushed[j]).1 by {
                if i == bms.len() {
                    assert(bms[j] == pushed[j]);
                } else if j == bms.len() {
                    assert(bms[i] == pushed[i]);
                } else {
                    assert(bms[i] == pushed[i] && bms[j] == pushed[j]);
                }
            }
        }
        if pushed.len() > max {
            let d = pushed.drop_first();
            assert forall|i: int, j: int|
                0 <= i < d.len() && 0 <= j < d.len() && i != j implies (#[trigger] d[i]).1 != (
            #[trigger] d[j]).1 by {
                assert(d[i] == pushed[i + 1] && d[j] == pushed[j + 1]);
            }
        }
    }
}

/// After a URL's bookmark is removed the URL is no longer bookmarked.
pub proof fn law_removed_bookmark_is_gone(bms: Seq<Entry>, url: Seq<char>)
    ensures
        !has_url(bookmarks_after_remove(bms, url), url),
{
    broadcast use Seq::lemma_filter_pred;

    let r = bookmarks_after_remove(bms, url);
    assert forall|i: int| 0 <= i < r.len() implies (#[trigger] r[i]).1 != url by {
        bms.lemma_filter_pred(other_url(url), i);
    }
}

/// Removing a URL that is not bookmarked changes nothing.
pub proof fn lemma_remove_absent(bms: Seq<Entry>, url: Seq<char>)
    requires
        !has_url(bms, url),
    ensures
        bookmarks_after_remove(bms, url) == bms,
    decreases bms.len(),
{
    reveal(Seq::filter);
    if bms.len() > 0 {
        let rest = bms.drop_last();
        assert(!has_url(rest, url)) by {
            if has_url(rest, url) {
                let i = choose|i: int| 0 <= i < rest.len() && (#[trigger] rest[i]).1 == url;
                assert(bms[i] == rest[i]);
            }
        }
        lemma_remove_absent(rest, url);
        assert(bms.last().1 != url) by {
            assert(bms[bms.len() - 1] == bms.last());
        }
        assert(rest.push(bms.last()) =~= bms);
    }
}

/// Toggling a bookmark twice, below the limit, leaves the bookmarks as they
/// were: the first toggle adds the page, the second removes it again.
pub proof fn law_toggle_twice_restores(bms: Seq<Entry>, e: Entry, max: nat)
    requires
        !has_url(bms, e.1),
        bms.len() < max,
    ensures
        has_url(bookmarks_after_add(bms, e, max), e.1),
        bookmarks_after_remove(bookmarks_after_add(bms, e, max), e.1) == bms,
{
    reveal(Seq::filter);
    law_added_bookmark_is_present(bms, e, max);
    let pushed = bms.push(e);
    assert(pushed.drop_last() =~= bms);
    lemma_remove_absent(bms, e.1);
}

/// A history within its limit stays within it after any visit.
pub proof fn law_history_stays_within_limit(hist: Seq<Entry>, e: Entry, privacy: bool, max: nat)
    requires
        hist.len() <= max,
    ensures
        history_after_visit(hist, e, privacy, max).len() <= max,
{
}

/// In privacy mode a visit leaves the history unchanged.
pub proof fn law_privacy_mode_records_nothing(hist: Seq<Entry>, e: Entry, max: nat)
    ensures
        history_after_visit(hist, e, true, max) == hist,
{
}

/// Outside privacy mode, with room for at least one visit, the latest visit
/// is listed first.
pub proof fn law_latest_visit_listed_first(hist: Seq<Entry>, e: Entry, max: nat, limit: nat)
    requires
        max > 0,
        limit > 0,
    ensures
        newest(history_after_visit(hist, e, false, max), limit).len() > 0,
        newest(history_after_visit(hist, e, false, max), limit)[0] == e,
{
    let h = history_after_visit(hist, e, false, max);
    let pushed = hist.push(e);
    assert(h.len() > 0);
    assert(h[h.len() - 1] == e);
    assert(h.reverse()[0] == h[h.len() - 1]);
}

/// History listings give `limit` entries, or all of them when there are fewer.
pub proof fn law_history_listing_length(hist: Seq<Entry>, limit: nat)
    ensures
        newest(hist, limit).len() == if limit < hist.len() { limit } else { hist.len() },
{
}

/// Every search result matches the lower-cased query, and there are at most
/// 100 of them.
pub proof fn law_search_results_match(hist: Seq<Entry>, query: Seq<char>)
    ensures
        search_result(hist, query).len() <= 100,
        forall|i: int|
            0 <= i < search_result(hist, query).len() ==> entry_matches(
                #[trigger] search_result(hist, query)[i],
                lowercase(query),
            ),
{
    broadcast use Seq::lemma_filter_pred;

    let q = lowercase(query);
    let f = hist.filter(matches_query(q));
    let all = f.reverse();
    assert forall|i: int| 0 <= i < search_result(hist, query).len() implies entry_matches(
        #[trigger] search_result(hist, query)[i],
        q,
    ) by {
        assert(search_result(hist, query)[i] == all[i]);
        assert(all[i] == f[f.len() - 1 - i]);
        hist.lemma_filter_pred(matches_query(q), f.len() - 1 - i);
    }
}

} // verus!
