//! What the screen shows, short of drawing it: tab labels, the address bar,
//! how each line is coloured, the status bar's texts and the settings
//! screen. Display widths come from the `unicode-width` crate.
use vstd::prelude::*;
use crate::app::{App, Mode, Tab};
use crate::text::{
    chars_of, contains, contains_chars, lowercase, occurs_at, occurs_at_exec, starts_with, starts_with_chars,
    str_to_lowercase, string_of,
};

verus! {

/// The number of terminal columns a text takes
/// (`unicode_width::UnicodeWidthStr::width`).
pub uninterp spec fn display_width(s: Seq<char>) -> nat;

/// The number of terminal columns a text takes, from
/// `unicode_width::UnicodeWidthStr::width`. The contract only names the
/// result (`display_width`); the width tables are the crate's.
#[verifier::external_body]
pub(crate) fn text_width(s: &str) -> (w: usize)
    ensures
        w == display_width(s@),
{
    unicode_width::UnicodeWidthStr::width(s)
}

/// The longest prefix of the characters whose widths, one by one, add up
/// to at most `budget`, and whether a character was left out.
pub open spec fn fit_prefix(cs: Seq<char>, budget: nat) -> (Seq<char>, bool)
    decreases cs.len(),
{
    if cs.len() == 0 {
        (seq![], false)
    } else {
        let cw = display_width(seq![cs[0]]);
        if cw > budget {
            (seq![], true)
        } else {
            let (rest, cut) = fit_prefix(cs.drop_first(), (budget - cw) as nat);
            (seq![cs[0]] + rest, cut)
        }
    }
}

/// A text cut to fit `max` columns: as it is when it fits, otherwise the
/// characters that fit in `max - 1` columns and an ellipsis.
pub open spec fn truncated(s: Seq<char>, max: nat) -> Seq<char> {
    if display_width(s) <= max {
        s
    } else {
        let (p, cut) = fit_prefix(s, (max - 1) as nat);
        if cut {
            p + "…"@
        } else {
            p
        }
    }
}

/// Cuts a text to fit `max` columns.
pub fn truncate(s: &str, max: usize) -> (r: String)
    requires
        max > 0,
    ensures
        r@ == truncated(s@, max as nat),
{
    if text_width(s) <= max {
        return string_of(chars_of(s).as_slice());
    }
    let cs = chars_of(s);
    let mut out: Vec<char> = Vec::new();
    let mut w: usize = 0;
    let mut i: usize = 0;
    let ghost budget0 = (max - 1) as nat;
    assert(cs@.skip(0) =~= cs@);
    while i < cs.len()
        invariant
            i <= cs@.len(),
            w <= max - 1,
            fit_prefix(cs@, budget0) == (out@ + fit_prefix(cs@.skip(i as int), (max - 1 - w) as nat).0, fit_prefix(
                cs@.skip(i as int),
                (max - 1 - w) as nat,
            ).1),
            budget0 == max - 1,
            cs@ == s@,
            display_width(s@) > max,
        decreases cs.len() - i,
    {
        let ghost rest = cs@.skip(i as int);
        assert(rest[0] == cs@[i as int]);
        assert(rest.drop_first() =~= cs@.skip(i + 1));
        let one = string_of(&[cs[i]]);
        assert(one@ =~= seq![cs@[i as int]]);
        let cw = text_width(one.as_str());
        if cw > max - 1 - w {
            let e = chars_of("…");
            crate::text::extend_chars(&mut out, e.as_slice());
            assert(out@ =~= fit_prefix(cs@, budget0).0 + "…"@);
            return string_of(out.as_slice());
        }
        let ghost before = out@;
        out.push(cs[i]);
        w = w + cw;
        assert(before + (seq![cs@[i as int]] + fit_prefix(cs@.skip(i + 1), (max - 1 - w) as nat).0) =~= out@
            + fit_prefix(cs@.skip(i + 1), (max - 1 - w) as nat).0);
        i += 1;
    }
    assert(cs@.skip(i as int) =~= Seq::<char>::empty());
    assert(out@ + Seq::<char>::empty() =~= out@);
    string_of(out.as_slice())
}

// ── Tab bar and address bar ────────────────────────────────────────────────

/// The label of a tab in the tab bar: a mark for a loading or the active
/// tab, its number from 1 and its title cut to 18 columns.
pub open spec fn tab_label_text(i: nat, loading: bool, active: bool, title: Seq<char>) -> Seq<char> {
    let prefix = if loading {
        " ◌ "@
    } else if active {
        " ▸ "@
    } else {
        "   "@
    };
    prefix + crate::display::decimal(i + 1) + ". "@ + truncated(title, 18)
}

/// The label of tab `i` in the tab bar.
pub fn tab_label(i: usize, tab: &Tab, active: bool) -> (r: String)
    requires
        i < usize::MAX,
    ensures
        r@ == tab_label_text(i as nat, tab.loading, active, tab.title@),
{
    let prefix: &str = if tab.loading {
        " ◌ "
    } else if active {
        " ▸ "
    } else {
        "   "
    };
    let mut out = chars_of(prefix);
    crate::display::push_decimal(&mut out, i + 1);
    crate::text::extend_chars(&mut out, chars_of(". ").as_slice());
    let t = truncate(tab.title.as_str(), 18);
    crate::text::extend_chars(&mut out, chars_of(t.as_str()).as_slice());
    string_of(out.as_slice())
}

/// The mark in front of the address: welcome screen, failed load, secure
/// address or plain address.
#[derive(Debug, PartialEq, Eq, Structural, Clone, Copy)]
pub enum UrlMark {
    Welcome,
    Error,
    Secure,
    Insecure,
}

/// The mark in front of an address.
pub open spec fn url_mark(url: Seq<char>, has_error: bool) -> UrlMark {
    if url == "about:welcome"@ {
        UrlMark::Welcome
    } else if has_error {
        UrlMark::Error
    } else if starts_with(url, "https://"@) {
        UrlMark::Secure
    } else {
        UrlMark::Insecure
    }
}

/// An address shown in a bar `width` columns wide: as it is when it has at
/// most `width - 6` characters, otherwise an ellipsis and its last
/// `width - 7` characters.
pub open spec fn shown_url(url: Seq<char>, width: nat) -> Seq<char> {
    if url.len() > width - 6 {
        let keep = (width - 7) as nat;
        let skip = if url.len() >= keep {
            url.len() - keep
        } else {
            0
        };
        "…"@ + url.skip(skip)
    } else {
        url
    }
}

/// The mark of the active tab's address.
pub fn address_mark(tab: &Tab) -> (m: UrlMark)
    ensures
        m == url_mark(tab.url@, tab.error is Some),
{
    let c = chars_of(tab.url.as_str());
    if crate::text::chars_equal(c.as_slice(), chars_of("about:welcome").as_slice()) {
        UrlMark::Welcome
    } else if tab.error.is_some() {
        UrlMark::Error
    } else if starts_with_chars(c.as_slice(), chars_of("https://").as_slice()) {
        UrlMark::Secure
    } else {
        UrlMark::Insecure
    }
}

/// An address as the address bar shows it.
pub fn address_text(url: &str, width: usize) -> (r: String)
    requires
        width >= 7,
    ensures
        r@ == shown_url(url@, width as nat),
{
    let c = chars_of(url);
    if c.len() > width - 6 {
        let keep = width - 7;
        let skip = if c.len() >= keep { c.len() - keep } else { 0 };
        let mut out = chars_of("…");
        let mut i = skip;
        let ghost start = out@;
        while i < c.len()
            invariant
                skip <= i <= c@.len(),
                out@ == start + c@.subrange(skip as int, i as int),
            decreases c.len() - i,
        {
            out.push(c[i]);
            i += 1;
            assert(out@ =~= start + c@.subrange(skip as int, i as int));
        }
        assert(c@.subrange(skip as int, i as int) =~= c@.skip(skip as int));
        string_of(out.as_slice())
    } else {
        string_of(c.as_slice())
    }
}

// ── Content ────────────────────────────────────────────────────────────────

/// How a line of the page is coloured.
#[derive(Debug, PartialEq, Eq, Structural, Clone, Copy)]
pub enum LineKind {
    Title,
    Warning,
    LinkItem,
    Quote,
    Rule,
    Body,
}

/// How a line is coloured: titles, warnings, items of the link list, quotes
/// and rules by how they begin, the rest as body text.
pub open spec fn line_kind(text: Seq<char>, is_title: bool) -> LineKind {
    if is_title {
        LineKind::Title
    } else if starts_with(text, "⚠"@) {
        LineKind::Warning
    } else if starts_with(text, "  ["@) && contains(text, "]"@) {
        LineKind::LinkItem
    } else if starts_with(text, "▎"@) {
        LineKind::Quote
    } else if starts_with(text, "  ─"@) {
        LineKind::Rule
    } else {
        LineKind::Body
    }
}

/// How a line is coloured.
pub fn classify_line(text: &str, is_title: bool) -> (k: LineKind)
    ensures
        k == line_kind(text@, is_title),
{
    let c = chars_of(text);
    if is_title {
        LineKind::Title
    } else if starts_with_chars(c.as_slice(), chars_of("⚠").as_slice()) {
        LineKind::Warning
    } else if starts_with_chars(c.as_slice(), chars_of("  [").as_slice()) && contains_chars(
        c.as_slice(),
        chars_of("]").as_slice(),
    ) {
        LineKind::LinkItem
    } else if starts_with_chars(c.as_slice(), chars_of("▎").as_slice()) {
        LineKind::Quote
    } else if starts_with_chars(c.as_slice(), chars_of("  ─").as_slice()) {
        LineKind::Rule
    } else {
        LineKind::Body
    }
}

// ── Status bar ─────────────────────────────────────────────────────────────

/// The label of a mode in the status bar.
pub open spec fn mode_label(m: Mode) -> Seq<char> {
    match m {
        Mode::Normal => " NORMAL "@,
        Mode::UrlInput => " URL "@,
        Mode::Search => " SEARCH "@,
        Mode::Bookmarks => " BOOKMARKS "@,
        Mode::History => " HISTORY "@,
        Mode::Settings => " SETTINGS "@,
        Mode::Help => " HELP "@,
    }
}

/// The label of a mode in the status bar.
pub fn mode_text(m: Mode) -> (r: &'static str)
    ensures
        r@ == mode_label(m),
{
    match m {
        Mode::Normal => " NORMAL ",
        Mode::UrlInput => " URL ",
        Mode::Search => " SEARCH ",
        Mode::Bookmarks => " BOOKMARKS ",
        Mode::History => " HISTORY ",
        Mode::Settings => " SETTINGS ",
        Mode::Help => " HELP ",
    }
}

/// The position among the tabs, such as ` Tab 2/3 `.
pub fn tab_count_text(app: &App) -> (r: String)
    requires
        app.wf(),
    ensures
        r@ == " Tab "@ + crate::display::decimal((app.active_tab + 1) as nat) + "/"@ + crate::display::decimal(
            app.tabs@.len(),
        ) + " "@,
{
    let mut out = chars_of(" Tab ");
    let n = app.tabs.len();
    assert(app.active_tab < n);
    crate::display::push_decimal(&mut out, app.active_tab + 1);
    out.push('/');
    crate::display::push_decimal(&mut out, app.tabs.len());
    out.push(' ');
    proof {
        reveal_strlit("/");
        reveal_strlit(" ");
    }
    string_of(out.as_slice())
}

/// The state of the active tab, as the status bar shows it.
#[derive(Debug, PartialEq, Eq, Structural, Clone, Copy)]
pub enum TabState {
    Loading,
    Failed,
    Ready,
}

/// The state of a tab: loading, failed or ready.
pub fn tab_state(tab: &Tab) -> (s: TabState)
    ensures
        s == if tab.loading {
            TabState::Loading
        } else if tab.error is Some {
            TabState::Failed
        } else {
            TabState::Ready
        },
{
    if tab.loading {
        TabState::Loading
    } else if tab.error.is_some() {
        TabState::Failed
    } else {
        TabState::Ready
    }
}

/// How the status message is coloured.
#[derive(Debug, PartialEq, Eq, Structural, Clone, Copy)]
pub enum MessageKind {
    Error,
    Notice,
    Plain,
}

/// How a status message is coloured: as an error when it speaks of an error
/// or a block, as a notice for bookmarks and search results.
pub open spec fn message_kind(msg: Seq<char>) -> MessageKind {
    if contains(msg, "Error"@) || contains(msg, "error"@) || contains(msg, "Blocked"@) {
        MessageKind::Error
    } else if contains(msg, "★"@) || contains(msg, "Found"@) {
        MessageKind::Notice
    } else {
        MessageKind::Plain
    }
}

/// How a status message is coloured.
pub fn classify_message(msg: &str) -> (k: MessageKind)
    ensures
        k == message_kind(msg@),
{
    let c = chars_of(msg);
    if contains_chars(c.as_slice(), chars_of("Error").as_slice()) || contains_chars(
        c.as_slice(),
        chars_of("error").as_slice(),
    ) || contains_chars(c.as_slice(), chars_of("Blocked").as_slice()) {
        MessageKind::Error
    } else if contains_chars(c.as_slice(), chars_of("★").as_slice()) || contains_chars(
        c.as_slice(),
        chars_of("Found").as_slice(),
    ) {
        MessageKind::Notice
    } else {
        MessageKind::Plain
    }
}

// ── Settings screen ────────────────────────────────────────────────────────

/// The name of the first built-in engine whose search URL is the one set.
pub open spec fn engine_name_of(url: Seq<char>, names: Seq<Seq<char>>) -> Option<Seq<char>>
    decreases names.len(),
{
    if names.len() == 0 {
        None
    } else if crate::search_engine::engine_url_of(names[0], crate::config::search_engine_table()) == Some(url) {
        Some(names[0])
    } else {
        engine_name_of(url, names.drop_first())
    }
}

/// The name of the search engine set, or "Custom" for one of the user's
/// own.
pub fn engine_display_name(search_engine: &str) -> (r: &'static str)
    ensures
        r@ == match engine_name_of(search_engine@, crate::keys::engine_name_list()) {
            Some(n) => n,
            None => "Custom"@,
        },
{
    let names = crate::search_engine::engine_names();
    let ghost nv = crate::keys::engine_name_list();
    assert(names@.map_values(|n: &str| n@) =~= nv);
    let want = chars_of(search_engine);
    let mut i: usize = 0;
    assert(nv.skip(0) =~= nv);
    while i < names.len()
        invariant
            i <= names@.len() == nv.len(),
            nv == crate::keys::engine_name_list(),
            names@.map_values(|n: &str| n@) == nv,
            want@ == search_engine@,
            engine_name_of(want@, nv) == engine_name_of(want@, nv.skip(i as int)),
        decreases names.len() - i,
    {
        let ghost rest = nv.skip(i as int);
        assert(rest[0] == nv[i as int]);
        assert(nv[i as int] == names@[i as int]@);
        assert(rest.drop_first() =~= nv.skip(i + 1));
        match crate::search_engine::engine_url(names[i]) {
            Some(u) => {
                if crate::text::chars_equal(chars_of(u).as_slice(), want.as_slice()) {
                    return names[i];
                }
            },
            None => {},
        }
        i += 1;
    }
    "Custom"
}

// ── Layout ─────────────────────────────────────────────────────────────────

impl App {
    /// Lays every tab out anew for the terminal width when the active tab
    /// has not been laid out (its last scroll position is 0) or shows
    /// nothing (`draw`, before drawing).
    pub fn relayout(&mut self, width: usize)
        requires
            old(self).wf(),
        ensures
            final(self).wf(),
            final(self).tabs@.len() == old(self).tabs@.len(),
            *final(self) == (App { tabs: final(self).tabs, ..*old(self) }),
            (old(self).current().scroll_max == 0 || old(self).current().display_lines@.len() == 0) ==> forall|i: int|
                0 <= i < final(self).tabs@.len() ==> crate::app::display_view(#[trigger] final(self).tabs@[i].display_lines@)
                    == crate::app::wrapped_display(
                    crate::app::rendered_view(old(self).tabs@[i].rendered),
                    crate::app::display_view(old(self).tabs@[i].display_lines@),
                    width as nat,
                ),
            !(old(self).current().scroll_max == 0 || old(self).current().display_lines@.len() == 0) ==> final(self).tabs
                == old(self).tabs,
    {
        let a = self.active_tab;
        if !(self.tabs[a].scroll_max == 0 || self.tabs[a].display_lines.len() == 0) {
            return;
        }
        let n = self.tabs.len();
        let mut i: usize = 0;
        while i < n
            invariant
                i <= n == self.tabs@.len() == old(self).tabs@.len(),
                *self == (App { tabs: self.tabs, ..*old(self) }),
                forall|k: int| i <= k < n ==> #[trigger] self.tabs@[k] == old(self).tabs@[k],
                forall|k: int|
                    0 <= k < i ==> crate::app::display_view(#[trigger] self.tabs@[k].display_lines@)
                        == crate::app::wrapped_display(
                        crate::app::rendered_view(old(self).tabs@[k].rendered),
                        crate::app::display_view(old(self).tabs@[k].display_lines@),
                        width as nat,
                    ),
            decreases n - i,
        {
            self.tabs[i].wrap_content(width);
            i += 1;
        }
    }
}

// ── Search highlighting ────────────────────────────────────────────────────

/// The pieces of `s` from position `i` on, the last piece having ended at
/// `last`: the occurrences of `pat`, found from left to right without
/// overlap, each as a piece marked `true`, and the stretches between them as
/// pieces marked `false`. Each piece is its start and end position.
pub open spec fn piece_scan(s: Seq<char>, pat: Seq<char>, i: int, last: int) -> Seq<(int, int, bool)>
    decreases s.len() - i,
{
    if pat.len() == 0 || i >= s.len() {
        if last < s.len() {
            seq![(last, s.len() as int, false)]
        } else {
            seq![]
        }
    } else if occurs_at(s, pat, i) {
        let gap = if last < i {
            seq![(last, i, false)]
        } else {
            seq![]
        };
        gap + seq![(i, i + pat.len(), true)] + piece_scan(s, pat, i + pat.len(), i + pat.len())
    } else {
        piece_scan(s, pat, i + 1, last)
    }
}

/// The pieces of a line for highlighting a search: the line and the query
/// are both taken in lower case, and the line is cut at the query's
/// occurrences.
pub open spec fn line_pieces(line: Seq<char>, query: Seq<char>) -> Seq<(int, int, bool)> {
    piece_scan(lowercase(line), lowercase(query), 0, 0)
}

/// The pieces from `i` on cover the text from `last` to its end, in order,
/// one after another, none of them empty, and every piece marked `true` is an
/// occurrence of the pattern.
pub proof fn lemma_piece_scan_covers(s: Seq<char>, pat: Seq<char>, i: int, last: int)
    requires
        0 <= last <= i <= s.len(),
    ensures
        ({
            let ps = piece_scan(s, pat, i, last);
            &&& last < s.len() ==> ps.len() > 0 && ps[0].0 == last && ps[ps.len() - 1].1 == s.len()
            &&& last == s.len() ==> ps.len() == 0
            &&& forall|k: int| 0 <= k < ps.len() ==> #[trigger] ps[k].0 < ps[k].1
            &&& forall|k: int| 0 <= k < ps.len() - 1 ==> #[trigger] ps[k].1 == ps[k + 1].0
            &&& forall|k: int| 0 <= k < ps.len() && #[trigger] ps[k].2 ==> occurs_at(s, pat, ps[k].0) && ps[k].1
                == ps[k].0 + pat.len()
        }),
    decreases s.len() - i,
{
    if pat.len() == 0 || i >= s.len() {
    } else if occurs_at(s, pat, i) {
        let j = i + pat.len();
        lemma_piece_scan_covers(s, pat, j, j);
        let gap: Seq<(int, int, bool)> = if last < i {
            seq![(last, i, false)]
        } else {
            seq![]
        };
        let head = gap + seq![(i, j, true)];
        let rest = piece_scan(s, pat, j, j);
        let ps = head + rest;
        assert(ps == piece_scan(s, pat, i, last));
        assert forall|k: int| 0 <= k < ps.len() implies #[trigger] ps[k].0 < ps[k].1 by {
            if k >= head.len() {
                assert(ps[k] == rest[k - head.len()]);
            }
        }
        assert forall|k: int| 0 <= k < ps.len() - 1 implies #[trigger] ps[k].1 == ps[k + 1].0 by {
            if k >= head.len() {
                assert(ps[k] == rest[k - head.len()]);
                assert(ps[k + 1] == rest[k + 1 - head.len()]);
            } else if k == head.len() - 1 {
                assert(ps[k + 1] == rest[0]);
            }
        }
        assert forall|k: int| 0 <= k < ps.len() && #[trigger] ps[k].2 implies occurs_at(s, pat, ps[k].0)
            && ps[k].1 == ps[k].0 + pat.len() by {
            if k >= head.len() {
                assert(ps[k] == rest[k - head.len()]);
            }
        }
        if rest.len() > 0 {
            assert(ps[ps.len() - 1] == rest[rest.len() - 1]);
        }
    } else {
        lemma_piece_scan_covers(s, pat, i + 1, last);
    }
}

/// The pieces of a line cover its lower-case form from start to end, in
/// order and without gaps or empty pieces, and each piece marked `true` is
/// an occurrence of the lower-cased query.
pub proof fn law_line_pieces_cover(line: Seq<char>, query: Seq<char>)
    ensures
        ({
            let s = lowercase(line);
            let ps = line_pieces(line, query);
            &&& s.len() > 0 ==> ps.len() > 0 && ps[0].0 == 0 && ps[ps.len() - 1].1 == s.len()
            &&& s.len() == 0 ==> ps.len() == 0
            &&& forall|k: int| 0 <= k < ps.len() ==> #[trigger] ps[k].0 < ps[k].1
            &&& forall|k: int| 0 <= k < ps.len() - 1 ==> #[trigger] ps[k].1 == ps[k + 1].0
            &&& forall|k: int| 0 <= k < ps.len() && #[trigger] ps[k].2 ==> occurs_at(s, lowercase(query), ps[k].0)
        }),
{
    lemma_piece_scan_covers(lowercase(line), lowercase(query), 0, 0);
}

/// The pieces as positions.
pub open spec fn pieces_view(v: Seq<(usize, usize, bool)>) -> Seq<(int, int, bool)> {
    v.map_values(|p: (usize, usize, bool)| (p.0 as int, p.1 as int, p.2))
}

/// Cuts a line into the pieces that match a search and the pieces between
/// them, by character position in the line's lower-case form; a piece marked
/// `true` is a match of the lower-cased query.
pub fn match_pieces(line: &str, query: &str) -> (r: Vec<(usize, usize, bool)>)
    ensures
        pieces_view(r@) == line_pieces(line@, query@),
{
    let lower = str_to_lowercase(line);
    let lc = chars_of(lower.as_str());
    let ql = str_to_lowercase(query);
    let qc = chars_of(ql.as_str());
    let ghost sv = lc@;
    let ghost pv = qc@;
    let mut out: Vec<(usize, usize, bool)> = Vec::new();
    let mut i: usize = 0;
    let mut last: usize = 0;
    if qc.len() > 0 {
        while i < lc.len()
            invariant
                sv == lc@,
                pv == qc@,
                pv.len() > 0,
                last <= i <= sv.len(),
                piece_scan(sv, pv, 0, 0) == pieces_view(out@) + piece_scan(sv, pv, i as int, last as int),
            decreases lc.len() - i,
        {
            let ghost before = out@;
            if occurs_at_exec(lc.as_slice(), qc.as_slice(), i) {
                let end = i + qc.len();
                if last < i {
                    out.push((last, i, false));
                }
                out.push((i, end, true));
                assert(pieces_view(out@) =~= pieces_view(before) + (if last < i {
                    seq![(last as int, i as int, false)]
                } else {
                    seq![]
                }) + seq![(i as int, end as int, true)]);
                i = end;
                last = end;
            } else {
                i = i + 1;
            }
        }
    }
    let ghost before = out@;
    if last < lc.len() {
        out.push((last, lc.len(), false));
    }
    assert(pieces_view(out@) =~= pieces_view(before) + piece_scan(sv, pv, i as int, last as int));
    out
}

} // verus!
