//! The browser's state: tabs with their history and scroll position, the
//! input mode, in-page search, bookmarks and settings.
//!
//! Loading a page is work for the program around the library: an operation
//! that starts a load hands back a `FetchRequest`, and the program answers
//! with a `LoadResult` for `App::process_load_result`.
use vstd::prelude::*;
use vstd::utf8::encode_utf8;
use crate::display::{string_views, word_wrap, wrapped_lines};
use crate::renderer::{line_bold, line_text, lines_view, page_view, spans_view, LineV, PageV, RenderedPage};
use crate::search_engine::{build_url, built_url};
use crate::text::{chars_equal, chars_of, contains, contains_chars, lowercase, str_to_lowercase, string_of};

verus! {

/// What the keyboard is doing.
#[derive(Debug, PartialEq, Eq, Structural, Clone, Copy)]
pub enum Mode {
    Normal,
    UrlInput,
    Search,
    Bookmarks,
    History,
    Settings,
    Help,
}

/// A tab.
pub struct Tab {
    pub url: String,
    pub title: String,
    pub rendered: Option<RenderedPage>,
    pub scroll: usize,
    pub scroll_max: usize,
    pub loading: bool,
    pub error: Option<String>,
    pub back_stack: Vec<String>,
    pub forward_stack: Vec<String>,
    /// The lines shown, each with whether it is drawn as a title.
    pub display_lines: Vec<(String, bool)>,
}

/// Display lines as values.
pub type DisplayV = Seq<(Seq<char>, bool)>;

/// The values of display lines.
pub open spec fn display_view(v: Seq<(String, bool)>) -> DisplayV {
    v.map_values(|p: (String, bool)| (p.0@, p.1))
}

/// The values of an optional page.
pub open spec fn rendered_view(o: Option<RenderedPage>) -> Option<PageV> {
    match o {
        Some(p) => Some(page_view(p)),
        None => None,
    }
}

/// The values of a list of addresses.
pub open spec fn url_views(v: Seq<String>) -> Seq<Seq<char>> {
    v.map_values(|s: String| s@)
}

/// The screen of a new tab.
pub open spec fn new_tab_lines() -> DisplayV {
    seq![("Press Ctrl+L to open a URL or ? for help."@, false)]
}

/// The welcome screen.
pub open spec fn welcome_lines() -> DisplayV {
    seq![
        ("  Tuba 1.1 — Unified Terminal Browser "@, true),
        ("  ─────────────────────────────────────"@, false),
        (""@, false),
        (" ┌─ Navigation ──────────────────────┐"@, false),
        ("   Ctrl+L    Open URL"@, false),
        ("   Ctrl+T    New tab"@, false),
        ("   Ctrl+W    Close tab"@, false),
        ("   Tab/S-Tab  Next/Prev tab"@, false),
        ("   b/f       Back / Forward"@, false),
        ("   r         Reload"@, false),
        (""@, false),
        (" ┌─ Scrolling & Search ──────────────┐"@, false),
        ("   j/k       Scroll down / up"@, false),
        ("   g/G       Top / Bottom"@, false),
        ("   /         Search in page"@, false),
        ("   n/N       Next/Prev match"@, false),
        (""@, false),
        (" ┌─ Tools ───────────────────────────┐"@, false),
        ("   Ctrl+B    Bookmarks"@, false),
        ("   Ctrl+H    History"@, false),
        ("   Ctrl+S    Settings"@, false),
        ("   Ctrl+D    Toggle bookmark"@, false),
        ("   Ctrl+E    Toggle ad blocker"@, false),
        ("   Ctrl+P    Toggle privacy mode"@, false),
        (""@, false),
        (" ┌─ Other ───────────────────────────┐"@, false),
        ("   ?         Help"@, false),
        ("   q/Ctrl+C  Quit"@, false),
        (""@, false),
        ("  ─────────────────────────────────────"@, false),
        ("   Enter a URL or search term to begin  "@, false),
    ]
}

/// The screen of a tab whose page failed to load.
pub open spec fn error_display(msg: Seq<char>) -> DisplayV {
    seq![("⚠  "@ + msg, false), (seq![], false), ("Press Ctrl+L to enter a different URL."@, false)]
}

/// One display line, wrapped when it is longer than the width in bytes; the
/// pieces keep the line's title flag.
pub open spec fn wrap_entry(text: Seq<char>, title: bool, width: nat) -> DisplayV {
    if encode_utf8(text).len() > width {
        wrapped_lines(text, width).map_values(|w: Seq<char>| (w, title))
    } else {
        seq![(text, title)]
    }
}

/// Display lines, each wrapped.
pub open spec fn rewrap(es: DisplayV, width: nat) -> DisplayV
    decreases es.len(),
{
    if es.len() == 0 {
        seq![]
    } else {
        rewrap(es.drop_last(), width) + wrap_entry(es.last().0, es.last().1, width)
    }
}

/// The display lines of a page's lines: their text, and whether they are
/// bold.
pub open spec fn page_entries(ls: Seq<LineV>) -> DisplayV {
    ls.map_values(|l: LineV| (line_text(l), line_bold(l)))
}

/// The lines shown for a page: its title and address, an empty line, then
/// its lines wrapped to the width.
pub open spec fn page_display(p: PageV, width: nat) -> DisplayV {
    seq![("  "@ + p.0, true), ("  "@ + p.1, false), (seq![], false)] + rewrap(page_entries(p.2), width)
}

/// The lines shown after wrapping to a terminal width: nothing changes
/// below a body width of 10 (the width less a margin of 4); otherwise a
/// page's lines are laid out anew, and other screens are rewrapped.
pub open spec fn wrapped_display(rendered: Option<PageV>, shown: DisplayV, width: nat) -> DisplayV {
    let body = if width >= 4 {
        (width - 4) as nat
    } else {
        0
    };
    if body < 10 {
        shown
    } else {
        match rendered {
            Some(p) => page_display(p, body),
            None => rewrap(shown, body),
        }
    }
}

/// The last scroll position of a screen of `n` lines.
pub open spec fn last_line(n: nat) -> nat {
    if n == 0 {
        0
    } else {
        (n - 1) as nat
    }
}

/// The number of lines of the welcome screen.
pub open spec fn welcome_len() -> nat {
    31
}

impl Tab {
    /// The scroll position is on the screen, and the screen fits below the
    /// last scroll position.
    pub open spec fn scroll_ok(&self) -> bool {
        &&& self.scroll <= self.scroll_max
        &&& self.display_lines@.len() <= self.scroll_max + 1
    }

    /// A new tab for an address, not yet loaded.
    pub fn new(url: String) -> (t: Tab)
        ensures
            t.url == url,
            t.title@ == "New Tab"@,
            t.rendered is None,
            t.scroll == 0,
            t.scroll_max == 0,
            !t.loading,
            t.error is None,
            t.back_stack@.len() == 0,
            t.forward_stack@.len() == 0,
            display_view(t.display_lines@) == new_tab_lines(),
            t.scroll_ok(),
    {
        let mut lines: Vec<(String, bool)> = Vec::new();
        lines.push((string_of(chars_of("Press Ctrl+L to open a URL or ? for help.").as_slice()), false));
        assert(display_view(lines@) =~= new_tab_lines());
        Tab {
            url,
            title: string_of(chars_of("New Tab").as_slice()),
            rendered: None,
            scroll: 0,
            scroll_max: 0,
            loading: false,
            error: None,
            back_stack: Vec::new(),
            forward_stack: Vec::new(),
            display_lines: lines,
        }
    }

    /// The welcome tab.
    pub fn welcome() -> (t: Tab)
        ensures
            t.url@ == "about:welcome"@,
            t.title@ == "Tuba"@,
            t.rendered is None,
            t.scroll == 0,
            t.scroll_max == welcome_len() - 1,
            !t.loading,
            t.error is None,
            t.back_stack@.len() == 0,
            t.forward_stack@.len() == 0,
            display_view(t.display_lines@) == welcome_lines(),
            t.scroll_ok(),
    {
        let texts: [&'static str; 31] = [
            "  Tuba 1.1 — Unified Terminal Browser ",
            "  ─────────────────────────────────────",
            "",
            " ┌─ Navigation ──────────────────────┐",
            "   Ctrl+L    Open URL",
            "   Ctrl+T    New tab",
            "   Ctrl+W    Close tab",
            "   Tab/S-Tab  Next/Prev tab",
            "   b/f       Back / Forward",
            "   r         Reload",
            "",
            " ┌─ Scrolling & Search ──────────────┐",
            "   j/k       Scroll down / up",
            "   g/G       Top / Bottom",
            "   /         Search in page",
            "   n/N       Next/Prev match",
            "",
            " ┌─ Tools ───────────────────────────┐",
            "   Ctrl+B    Bookmarks",
            "   Ctrl+H    History",
            "   Ctrl+S    Settings",
            "   Ctrl+D    Toggle bookmark",
            "   Ctrl+E    Toggle ad blocker",
            "   Ctrl+P    Toggle privacy mode",
            "",
            " ┌─ Other ───────────────────────────┐",
            "   ?         Help",
            "   q/Ctrl+C  Quit",
            "",
            "  ─────────────────────────────────────",
            "   Enter a URL or search term to begin  ",
        ];
        let ghost want = welcome_lines();
        assert(texts@.len() == 31);
        assert forall|k: int| 0 <= k < 31 implies #[trigger] texts@[k]@ == want[k].0 && want[k].1 == (k == 0) by {
            assert(want =~= seq![
                (texts@[0]@, true), (texts@[1]@, false), (texts@[2]@, false), (texts@[3]@, false),
                (texts@[4]@, false), (texts@[5]@, false), (texts@[6]@, false), (texts@[7]@, false),
                (texts@[8]@, false), (texts@[9]@, false), (texts@[10]@, false), (texts@[11]@, false),
                (texts@[12]@, false), (texts@[13]@, false), (texts@[14]@, false), (texts@[15]@, false),
                (texts@[16]@, false), (texts@[17]@, false), (texts@[18]@, false), (texts@[19]@, false),
                (texts@[20]@, false), (texts@[21]@, false), (texts@[22]@, false), (texts@[23]@, false),
                (texts@[24]@, false), (texts@[25]@, false), (texts@[26]@, false), (texts@[27]@, false),
                (texts@[28]@, false), (texts@[29]@, false), (texts@[30]@, false),
            ]);
        }
        let mut lines: Vec<(String, bool)> = Vec::new();
        let mut k: usize = 0;
        while k < 31
            invariant
                k <= 31,
                texts@.len() == 31,
                want == welcome_lines(),
                forall|m: int| 0 <= m < 31 ==> #[trigger] texts@[m]@ == want[m].0 && want[m].1 == (m == 0),
                display_view(lines@) == want.take(k as int),
            decreases 31 - k,
        {
            let ghost before = display_view(lines@);
            let line = string_of(chars_of(texts[k]).as_slice());
            assert(line@ == texts@[k as int]@);
            assert(want[k as int] == (texts@[k as int]@, k == 0));
            lines.push((line, k == 0));
            assert(display_view(lines@) =~= before.push((texts@[k as int]@, k == 0)));
            assert(display_view(lines@) =~= want.take(k + 1));
            k += 1;
        }
        assert(want.take(31) =~= want);
        Tab {
            url: string_of(chars_of("about:welcome").as_slice()),
            title: string_of(chars_of("Tuba").as_slice()),
            rendered: None,
            scroll: 0,
            scroll_max: 30,
            loading: false,
            error: None,
            back_stack: Vec::new(),
            forward_stack: Vec::new(),
            display_lines: lines,
        }
    }
}

/// Appends a display line, wrapped when it is longer than the width.
fn push_wrapped(out: &mut Vec<(String, bool)>, text: String, title: bool, width: usize)
    ensures
        display_view(final(out)@) == display_view(old(out)@) + wrap_entry(text@, title, width as nat),
{
    let c = chars_of(text.as_str());
    if crate::text::utf8_longer_than(c.as_slice(), width) {
        let ws = word_wrap(text.as_str(), width);
        let ghost wv = string_views(ws@);
        let ghost start = display_view(out@);
        let mut i: usize = 0;
        while i < ws.len()
            invariant
                i <= ws@.len() == wv.len(),
                wv == string_views(ws@),
                display_view(out@) == start + wv.take(i as int).map_values(|w: Seq<char>| (w, title)),
            decreases ws.len() - i,
        {
            let ghost before = display_view(out@);
            out.push((ws[i].clone(), title));
            assert(display_view(out@) =~= before.push((wv[i as int], title)));
            assert(wv.take(i + 1).map_values(|w: Seq<char>| (w, title)) =~= wv.take(i as int).map_values(
                |w: Seq<char>| (w, title),
            ).push((wv[i as int], title)));
            i += 1;
        }
        assert(wv.take(i as int) =~= wv);
    } else {
        let ghost before = display_view(out@);
        out.push((text, title));
        assert(display_view(out@) =~= before.push((text@, title)));
    }
}

impl Tab {
    /// Shows a loaded page: its title becomes the tab's, errors and the
    /// loading state are cleared, and the screen waits to be laid out.
    pub fn set_from_rendered(&mut self, page: RenderedPage)
        ensures
            final(self).title@ == page.title@,
            final(self).rendered == Some(page),
            final(self).error is None,
            !final(self).loading,
            display_view(final(self).display_lines@) == seq![("(rendering...)"@, false)],
            final(self).scroll == 0,
            final(self).scroll_max == old(self).scroll_max,
            final(self).url == old(self).url,
            final(self).back_stack == old(self).back_stack,
            final(self).forward_stack == old(self).forward_stack,
    {
        self.title = string_of(chars_of(page.title.as_str()).as_slice());
        self.rendered = Some(page);
        self.error = None;
        self.loading = false;
        let mut lines: Vec<(String, bool)> = Vec::new();
        lines.push((string_of(chars_of("(rendering...)").as_slice()), false));
        assert(display_view(lines@) =~= seq![("(rendering...)"@, false)]);
        self.display_lines = lines;
        self.scroll = 0;
    }

    /// Shows that the page failed to load, with the message.
    pub fn set_error(&mut self, msg: &str)
        ensures
            final(self).title@ == "Error"@,
            final(self).rendered is None,
            display_view(final(self).display_lines@) == error_display(msg@),
            crate::config::opt_view(final(self).error) == Some(msg@),
            !final(self).loading,
            final(self).scroll == 0,
            final(self).scroll_max == 2,
            final(self).url == old(self).url,
            final(self).back_stack == old(self).back_stack,
            final(self).forward_stack == old(self).forward_stack,
            final(self).scroll_ok(),
    {
        self.title = string_of(chars_of("Error").as_slice());
        self.rendered = None;
        let mut lines: Vec<(String, bool)> = Vec::new();
        lines.push((string_of(crate::renderer::lit_cat("⚠  ", chars_of(msg).as_slice()).as_slice()), false));
        lines.push((String::new(), false));
        lines.push((string_of(chars_of("Press Ctrl+L to enter a different URL.").as_slice()), false));
        assert(display_view(lines@) =~= error_display(msg@));
        self.display_lines = lines;
        self.error = Some(string_of(chars_of(msg).as_slice()));
        self.loading = false;
        self.scroll = 0;
        self.scroll_max = 2;
    }

    /// Shows that the page is loading.
    pub fn set_loading(&mut self)
        ensures
            final(self).loading,
            display_view(final(self).display_lines@) == seq![("⏳ Loading..."@, false)],
            final(self).scroll == 0,
            final(self).scroll_max == 0,
            final(self).url == old(self).url,
            final(self).title == old(self).title,
            final(self).rendered == old(self).rendered,
            final(self).error == old(self).error,
            final(self).back_stack == old(self).back_stack,
            final(self).forward_stack == old(self).forward_stack,
            final(self).scroll_ok(),
    {
        self.loading = true;
        let mut lines: Vec<(String, bool)> = Vec::new();
        lines.push((string_of(chars_of("⏳ Loading...").as_slice()), false));
        assert(display_view(lines@) =~= seq![("⏳ Loading..."@, false)]);
        self.display_lines = lines;
        self.scroll = 0;
        self.scroll_max = 0;
    }

    /// Lays the screen out for a terminal width: a page's lines are wrapped
    /// below its title and address, other screens are rewrapped; the scroll
    /// position stays on the screen. Nothing changes below a body width of
    /// 10.
    pub fn wrap_content(&mut self, width: usize)
        ensures
            display_view(final(self).display_lines@) == wrapped_display(
                rendered_view(old(self).rendered),
                display_view(old(self).display_lines@),
                width as nat,
            ),
            width < 14 ==> final(self).scroll == old(self).scroll && final(self).scroll_max == old(self).scroll_max,
            width >= 14 ==> final(self).scroll_max == last_line(final(self).display_lines@.len()),
            width >= 14 ==> final(self).scroll == if old(self).scroll <= final(self).scroll_max {
                old(self).scroll
            } else {
                final(self).scroll_max
            },
            final(self).url == old(self).url,
            final(self).title == old(self).title,
            final(self).rendered == old(self).rendered,
            final(self).error == old(self).error,
            final(self).loading == old(self).loading,
            final(self).back_stack == old(self).back_stack,
            final(self).forward_stack == old(self).forward_stack,
            old(self).scroll_ok() ==> final(self).scroll_ok(),
    {
        let body = if width >= 4 { width - 4 } else { 0 };
        if body < 10 {
            return;
        }
        let mut lines: Vec<(String, bool)> = Vec::new();
        match &self.rendered {
            Some(page) => {
                let t = crate::renderer::lit_cat("  ", chars_of(page.title.as_str()).as_slice());
                lines.push((string_of(t.as_slice()), true));
                let u = crate::renderer::lit_cat("  ", chars_of(page.url.as_str()).as_slice());
                lines.push((string_of(u.as_slice()), false));
                lines.push((String::new(), false));
                let ghost head = display_view(lines@);
                let ghost pe = page_entries(lines_view(page.lines@));
                assert(head =~= seq![("  "@ + page.title@, true), ("  "@ + page.url@, false), (Seq::<char>::empty(), false)]);
                let mut i: usize = 0;
                while i < page.lines.len()
                    invariant
                        i <= page.lines@.len() == pe.len(),
                        pe == page_entries(lines_view(page.lines@)),
                        display_view(lines@) == head + rewrap(pe.take(i as int), body as nat),
                    decreases page.lines.len() - i,
                {
                    assert(pe.take(i + 1).drop_last() =~= pe.take(i as int));
                    let text = page.lines[i].text();
                    let bold = page.lines[i].is_bold();
                    assert(pe[i as int] == (text@, bold));
                    push_wrapped(&mut lines, text, bold, body);
                    assert(display_view(lines@) =~= head + rewrap(pe.take(i + 1), body as nat));
                    i += 1;
                }
                assert(pe.take(i as int) =~= pe);
            },
            None => {
                let ghost shown = display_view(self.display_lines@);
                let mut i: usize = 0;
                assert(display_view(lines@) =~= rewrap(shown.take(0), body as nat));
                while i < self.display_lines.len()
                    invariant
                        i <= self.display_lines@.len() == shown.len(),
                        shown == display_view(self.display_lines@),
                        display_view(lines@) == rewrap(shown.take(i as int), body as nat),
                    decreases self.display_lines.len() - i,
                {
                    assert(shown.take(i + 1).drop_last() =~= shown.take(i as int));
                    let text = self.display_lines[i].0.clone();
                    let title = self.display_lines[i].1;
                    push_wrapped(&mut lines, text, title, body);
                    i += 1;
                }
                assert(shown.take(i as int) =~= shown);
            },
        }
        self.display_lines = lines;
        self.scroll_max = if self.display_lines.len() == 0 { 0 } else { self.display_lines.len() - 1 };
        if self.scroll > self.scroll_max {
            self.scroll = self.scroll_max;
        }
    }
}

// ── The browser ────────────────────────────────────────────────────────────

/// A page load for the program to perform: which tab asked, the address,
/// whether to use headless Chromium, and whether a failure is to be reported
/// as a blocked page (loads started by navigating) or as its error message
/// (loads started by going back or forward).
pub struct FetchRequest {
    pub tab_idx: usize,
    pub url: String,
    pub headless: bool,
    pub errors_as_blocked: bool,
}

/// The answer to a page load.
pub struct LoadResult {
    pub tab_idx: usize,
    pub url: String,
    pub result: Result<crate::browser::FetchResult, String>,
}

/// The answer to a request, from what the fetch gave: a failure becomes a
/// blocked page or an error message, as the request asks.
pub fn load_result(request: FetchRequest, outcome: Result<crate::browser::FetchResult, String>) -> (r: LoadResult)
    ensures
        r.tab_idx == request.tab_idx,
        r.url == request.url,
        r.result == match outcome {
            Ok(f) => Ok(f),
            Err(e) => if request.errors_as_blocked {
                Ok(crate::browser::FetchResult::Blocked)
            } else {
                Err(e)
            },
        },
{
    let result = match outcome {
        Ok(f) => Ok(f),
        Err(e) => if request.errors_as_blocked {
            Ok(crate::browser::FetchResult::Blocked)
        } else {
            Err(e)
        },
    };
    LoadResult { tab_idx: request.tab_idx, url: request.url, result }
}

/// The browser's state.
pub struct App {
    pub tabs: Vec<Tab>,
    pub active_tab: usize,
    pub mode: Mode,
    pub url_input: String,
    pub search_query: String,
    /// The lines of the last in-page search: position and text.
    pub search_results: Vec<(usize, String)>,
    pub search_idx: usize,
    pub status_message: String,
    pub should_quit: bool,
    pub storage: crate::storage::Storage,
    pub config: crate::config::Config,
}

/// The status line when nothing is to be reported.
pub open spec fn idle_status() -> Seq<char> {
    "NORMAL  |  ? for help"@
}

impl App {
    /// There is always a tab, the active one is one of them, and the search
    /// position is on a result when there are results.
    pub open spec fn wf(&self) -> bool {
        &&& self.tabs@.len() > 0
        &&& self.active_tab < self.tabs@.len()
        &&& self.search_results@.len() > 0 ==> self.search_idx < self.search_results@.len()
    }

    /// The active tab.
    pub open spec fn current(&self) -> Tab {
        self.tabs@[self.active_tab as int]
    }

    /// Every tab but the active one is as it was.
    pub open spec fn others_kept(&self, before: &App) -> bool {
        &&& self.tabs@.len() == before.tabs@.len()
        &&& self.active_tab == before.active_tab
        &&& forall|i: int| 0 <= i < self.tabs@.len() && i != self.active_tab ==> #[trigger] self.tabs@[i] == before.tabs@[i]
    }

    /// A browser on the welcome tab.
    pub fn new(config: crate::config::Config, storage: crate::storage::Storage) -> (a: App)
        ensures
            a.wf(),
            a.tabs@.len() == 1,
            a.active_tab == 0,
            a.tabs@[0].url@ == "about:welcome"@,
            display_view(a.tabs@[0].display_lines@) == welcome_lines(),
            a.mode == Mode::Normal,
            a.url_input@.len() == 0,
            a.search_query@.len() == 0,
            a.search_results@.len() == 0,
            a.search_idx == 0,
            a.status_message@ == idle_status(),
            !a.should_quit,
            a.storage == storage,
            a.config == config,
    {
        let mut tabs: Vec<Tab> = Vec::new();
        tabs.push(Tab::welcome());
        App {
            tabs,
            active_tab: 0,
            mode: Mode::Normal,
            url_input: String::new(),
            search_query: String::new(),
            search_results: Vec::new(),
            search_idx: 0,
            status_message: string_of(chars_of("NORMAL  |  ? for help").as_slice()),
            should_quit: false,
            storage,
            config,
        }
    }

    /// The active tab.
    pub fn active_tab(&self) -> (t: &Tab)
        requires
            self.wf(),
        ensures
            *t == self.current(),
    {
        &self.tabs[self.active_tab]
    }

    /// The active tab, to change it.
    pub fn active_tab_mut(&mut self) -> (t: &mut Tab)
        requires
            old(self).wf(),
        ensures
            *t == old(self).current(),
            final(self).tabs@ == old(self).tabs@.update(old(self).active_tab as int, *final(t)),
            *final(self) == (App { tabs: final(self).tabs, ..*old(self) }),
    {
        &mut self.tabs[self.active_tab]
    }

    /// Sets the status line; an empty message gives the idle status.
    pub fn update_status(&mut self, msg: &str)
        ensures
            final(self).status_message@ == if msg@.len() == 0 {
                idle_status()
            } else {
                msg@
            },
            *final(self) == (App { status_message: final(self).status_message, ..*old(self) }),
    {
        if msg.is_empty() {
            self.status_message = string_of(chars_of("NORMAL  |  ? for help").as_slice());
        } else {
            self.status_message = string_of(chars_of(msg).as_slice());
        }
    }

    /// Closes the active tab; closing the last tab quits instead. The tab
    /// after the closed one becomes active, or the new last tab.
    pub fn close_tab(&mut self)
        requires
            old(self).wf(),
        ensures
            final(self).wf(),
            old(self).tabs@.len() <= 1 ==> *final(self) == (App { should_quit: true, ..*old(self) }),
            old(self).tabs@.len() > 1 ==> {
                &&& final(self).tabs@ == old(self).tabs@.remove(old(self).active_tab as int)
                &&& final(self).active_tab == if old(self).active_tab < final(self).tabs@.len() {
                    old(self).active_tab
                } else {
                    (final(self).tabs@.len() - 1) as usize
                }
                &&& final(self).status_message@ == idle_status()
                &&& *final(self) == (App {
                    tabs: final(self).tabs,
                    active_tab: final(self).active_tab,
                    status_message: final(self).status_message,
                    ..*old(self)
                })
            },
            final(self).search_results == old(self).search_results,
            final(self).search_idx == old(self).search_idx,
            final(self).storage == old(self).storage,
            final(self).config == old(self).config,
    {
        if self.tabs.len() <= 1 {
            self.should_quit = true;
            return;
        }
        proof {
            reveal_strlit("");
        }
        self.tabs.remove(self.active_tab);
        if self.active_tab >= self.tabs.len() {
            self.active_tab = self.tabs.len() - 1;
        }
        self.update_status("");
    }

    /// Moves to the next tab, if there is one.
    pub fn next_tab(&mut self)
        requires
            old(self).wf(),
        ensures
            final(self).wf(),
            *final(self) == (App { active_tab: final(self).active_tab, status_message: final(self).status_message, ..*old(self) }),
            final(self).tabs == old(self).tabs,
            old(self).active_tab + 1 < old(self).tabs@.len() ==> final(self).active_tab == old(self).active_tab + 1
                && final(self).status_message@ == idle_status(),
            old(self).active_tab + 1 >= old(self).tabs@.len() ==> final(self).active_tab == old(self).active_tab
                && final(self).status_message == old(self).status_message,
            final(self).search_results == old(self).search_results,
            final(self).search_idx == old(self).search_idx,
            final(self).storage == old(self).storage,
            final(self).config == old(self).config,
    {
        proof {
            reveal_strlit("");
        }
        if self.active_tab < self.tabs.len() - 1 {
            self.active_tab += 1;
            self.update_status("");
        }
    }

    /// Moves to the previous tab, if there is one.
    pub fn prev_tab(&mut self)
        requires
            old(self).wf(),
        ensures
            final(self).wf(),
            *final(self) == (App { active_tab: final(self).active_tab, status_message: final(self).status_message, ..*old(self) }),
            final(self).tabs == old(self).tabs,
            old(self).active_tab > 0 ==> final(self).active_tab == old(self).active_tab - 1
                && final(self).status_message@ == idle_status(),
            old(self).active_tab == 0 ==> final(self).active_tab == 0
                && final(self).status_message == old(self).status_message,
            final(self).search_results == old(self).search_results,
            final(self).search_idx == old(self).search_idx,
            final(self).storage == old(self).storage,
            final(self).config == old(self).config,
    {
        proof {
            reveal_strlit("");
        }
        if self.active_tab > 0 {
            self.active_tab -= 1;
            self.update_status("");
        }
    }

    /// Scrolls down, stopping at the last line.
    pub fn scroll_down(&mut self, amount: usize)
        requires
            old(self).wf(),
        ensures
            final(self).wf(),
            *final(self) == (App { tabs: final(self).tabs, ..*old(self) }),
            final(self).others_kept(old(self)),
            final(self).current().scroll == if old(self).current().scroll + amount <= old(self).current().scroll_max {
                old(self).current().scroll + amount
            } else {
                old(self).current().scroll_max as int
            },
            final(self).current() == (Tab { scroll: final(self).current().scroll, ..old(self).current() }),
            final(self).search_results == old(self).search_results,
            final(self).search_idx == old(self).search_idx,
            final(self).status_message == old(self).status_message,
    {
        let i = self.active_tab;
        let s = self.tabs[i].scroll.saturating_add(amount);
        let m = self.tabs[i].scroll_max;
        self.tabs[i].scroll = if s < m { s } else { m };
    }

    /// Scrolls up, stopping at the first line.
    pub fn scroll_up(&mut self, amount: usize)
        requires
            old(self).wf(),
        ensures
            final(self).wf(),
            *final(self) == (App { tabs: final(self).tabs, ..*old(self) }),
            final(self).others_kept(old(self)),
            final(self).current().scroll == if old(self).current().scroll >= amount {
                old(self).current().scroll - amount
            } else {
                0
            },
            final(self).current() == (Tab { scroll: final(self).current().scroll, ..old(self).current() }),
            final(self).search_results == old(self).search_results,
            final(self).search_idx == old(self).search_idx,
            final(self).status_message == old(self).status_message,
    {
        let i = self.active_tab;
        let s = self.tabs[i].scroll;
        self.tabs[i].scroll = s.saturating_sub(amount);
    }

    /// Scrolls to the first line.
    pub fn scroll_to_top(&mut self)
        requires
            old(self).wf(),
        ensures
            final(self).wf(),
            *final(self) == (App { tabs: final(self).tabs, ..*old(self) }),
            final(self).others_kept(old(self)),
            final(self).current() == (Tab { scroll: 0, ..old(self).current() }),
            final(self).search_results == old(self).search_results,
            final(self).search_idx == old(self).search_idx,
            final(self).status_message == old(self).status_message,
    {
        let i = self.active_tab;
        self.tabs[i].scroll = 0;
    }

    /// Scrolls to the last line.
    pub fn scroll_to_bottom(&mut self)
        requires
            old(self).wf(),
        ensures
            final(self).wf(),
            *final(self) == (App { tabs: final(self).tabs, ..*old(self) }),
            final(self).others_kept(old(self)),
            final(self).current() == (Tab { scroll: old(self).current().scroll_max, ..old(self).current() }),
            final(self).search_results == old(self).search_results,
            final(self).search_idx == old(self).search_idx,
            final(self).status_message == old(self).status_message,
    {
        let i = self.active_tab;
        let m = self.tabs[i].scroll_max;
        self.tabs[i].scroll = m;
    }
}

// ── Navigation ─────────────────────────────────────────────────────────────

/// Sites known to need JavaScript, which are fetched with headless Chromium.
pub open spec fn js_heavy_sites() -> Seq<Seq<char>> {
    seq![
        "chatgpt.com"@, "chat.deepseek.com"@, "discord.com"@, "x.com"@,
        "twitter.com"@, "instagram.com"@, "reddit.com"@, "tiktok.com"@, "pinterest.com"@,
        "spotify.com"@, "netflix.com"@, "twitch.tv"@, "snapchat.com"@, "medium.com"@,
        "quora.com"@, "stackoverflow.com"@, "stackexchange.com"@, "zoom.us"@, "openai.com"@,
        "gemini.google.com"@, "messenger.com"@, "t.me"@, "whatsapp.com"@, "robinhood.com"@,
        "coinbase.com"@, " Figma"@, "miro.com"@, "notion.so"@, "linear.app"@,
        "excalidraw.com"@, "replit.com"@, "codesandbox.io"@, "glitch.com"@, "vercel.com"@,
        "netlify.com"@,
    ]
}

/// Whether an address is on one of the sites that need JavaScript: one of
/// the names occurs in its lower-case form.
pub open spec fn js_heavy(url: Seq<char>) -> bool {
    exists|i: int| 0 <= i < js_heavy_sites().len() && contains(lowercase(url), #[trigger] js_heavy_sites()[i])
}

/// Whether an address is on one of the sites that need JavaScript.
pub fn is_js_heavy_site(url: &str) -> (b: bool)
    ensures
        b == js_heavy(url@),
{
    let lower = str_to_lowercase(url);
    let lc = chars_of(lower.as_str());
    let sites: [&'static str; 35] = [
        "chatgpt.com", "chat.deepseek.com", "discord.com", "x.com",
        "twitter.com", "instagram.com", "reddit.com", "tiktok.com", "pinterest.com",
        "spotify.com", "netflix.com", "twitch.tv", "snapchat.com", "medium.com",
        "quora.com", "stackoverflow.com", "stackexchange.com", "zoom.us", "openai.com",
        "gemini.google.com", "messenger.com", "t.me", "whatsapp.com", "robinhood.com",
        "coinbase.com", " Figma", "miro.com", "notion.so", "linear.app",
        "excalidraw.com", "replit.com", "codesandbox.io", "glitch.com", "vercel.com",
        "netlify.com",
    ];
    let ghost want = js_heavy_sites();
    assert(sites@.map_values(|t: &str| t@) =~= want);
    let mut i: usize = 0;
    while i < 35
        invariant
            i <= 35,
            sites@.len() == 35,
            want == js_heavy_sites(),
            sites@.map_values(|t: &str| t@) == want,
            lc@ == lowercase(url@),
            forall|k: int| 0 <= k < i ==> !contains(lc@, #[trigger] want[k]),
        decreases 35 - i,
    {
        assert(want[i as int] == sites@[i as int]@);
        let p = chars_of(sites[i]);
        if contains_chars(lc.as_slice(), p.as_slice()) {
            assert(contains(lowercase(url@), want[i as int]));
            return true;
        }
        i += 1;
    }
    false
}

/// The screen of a loading tab.
pub open spec fn loading_lines() -> DisplayV {
    seq![("⏳ Loading..."@, false)]
}

/// The tab after it starts loading an address: the address it left goes on
/// the back stack and the forward stack is cleared, unless it left the
/// welcome screen or reloads the same address; it shows that it is loading.
pub open spec fn navigated(before: Tab, after: Tab, url: Seq<char>) -> bool {
    &&& after.url@ == url
    &&& if before.url@ != "about:welcome"@ && before.url@ != url {
        &&& url_views(after.back_stack@) == url_views(before.back_stack@).push(before.url@)
        &&& after.forward_stack@.len() == 0
    } else {
        &&& after.back_stack == before.back_stack
        &&& after.forward_stack == before.forward_stack
    }
    &&& loaded_kept(before, after)
}

/// A tab that starts loading: it shows the loading screen at the top, and
/// keeps its title, page and error.
pub open spec fn loaded_kept(before: Tab, after: Tab) -> bool {
    &&& after.loading
    &&& display_view(after.display_lines@) == loading_lines()
    &&& after.scroll == 0
    &&& after.scroll_max == 0
    &&& after.title == before.title
    &&& after.rendered == before.rendered
    &&& after.error == before.error
}

/// The tab after going back: the last address of the back stack is loaded,
/// and the address it left goes on the forward stack.
pub open spec fn went_back(before: Tab, after: Tab) -> bool {
    &&& before.back_stack@.len() > 0
    &&& after.url@ == before.back_stack@.last()@
    &&& url_views(after.back_stack@) == url_views(before.back_stack@).drop_last()
    &&& url_views(after.forward_stack@) == url_views(before.forward_stack@).push(before.url@)
    &&& loaded_kept(before, after)
}

/// The tab after going forward: the last address of the forward stack is
/// loaded, and the address it left goes on the back stack.
pub open spec fn went_forward(before: Tab, after: Tab) -> bool {
    &&& before.forward_stack@.len() > 0
    &&& after.url@ == before.forward_stack@.last()@
    &&& url_views(after.forward_stack@) == url_views(before.forward_stack@).drop_last()
    &&& url_views(after.back_stack@) == url_views(before.back_stack@).push(before.url@)
    &&& loaded_kept(before, after)
}

/// The request to load an address into a tab, as `navigate` makes it, with
/// the status line that announces it.
pub open spec fn load_requested(after: App, q: FetchRequest, tab: usize, url: Seq<char>) -> bool {
    &&& q.tab_idx == tab
    &&& q.url@ == url
    &&& q.headless == js_heavy(url)
    &&& q.errors_as_blocked
    &&& after.status_message@ == "⏳ Loading "@ + url + "..."@
}

/// Everything but the tabs and the status line is as it was.
pub open spec fn rest_kept(after: App, before: App) -> bool {
    &&& after.search_results == before.search_results
    &&& after.search_idx == before.search_idx
    &&& after.storage == before.storage
    &&& after.config == before.config
    &&& after.should_quit == before.should_quit
    &&& after.mode == before.mode
}

impl App {
    /// Starts loading what was typed, as an address or a search. The
    /// program is to perform the returned request.
    pub fn navigate(&mut self, raw_url: String) -> (r: FetchRequest)
        requires
            old(self).wf(),
        ensures
            final(self).wf(),
            *final(self) == (App { tabs: final(self).tabs, status_message: final(self).status_message, ..*old(self) }),
            final(self).others_kept(old(self)),
            rest_kept(*final(self), *old(self)),
            navigated(old(self).current(), final(self).current(), built_url(raw_url@, old(self).config.search_engine@)),
            final(self).status_message@ == "⏳ Loading "@ + built_url(raw_url@, old(self).config.search_engine@) + "..."@,
            r.tab_idx == old(self).active_tab,
            r.url@ == built_url(raw_url@, old(self).config.search_engine@),
            r.headless == js_heavy(r.url@),
            r.errors_as_blocked,
    {
        let url = build_url(raw_url.as_str(), self.config.search_engine.as_str());
        let i = self.active_tab;
        let old_url = self.tabs[i].url.clone();
        let welcome = chars_of("about:welcome");
        let oc = chars_of(old_url.as_str());
        let uc = chars_of(url.as_str());
        if !chars_equal(oc.as_slice(), welcome.as_slice()) && !chars_equal(oc.as_slice(), uc.as_slice()) {
            let ghost back = url_views(self.tabs@[i as int].back_stack@);
            self.tabs[i].back_stack.push(old_url);
            assert(url_views(self.tabs@[i as int].back_stack@) =~= back.push(oc@));
            self.tabs[i].forward_stack = Vec::new();
            self.tabs[i].url = url.clone();
        } else {
            self.tabs[i].url = url.clone();
        }
        self.tabs[i].set_loading();
        assert(display_view(self.tabs@[i as int].display_lines@) == loading_lines());
        let a = crate::renderer::lit_cat("⏳ Loading ", uc.as_slice());
        let b = chars_of("...");
        let msg = crate::renderer::cat(a.as_slice(), b.as_slice());
        self.status_message = string_of(msg.as_slice());
        assert(self.status_message@ =~= "⏳ Loading "@ + url@ + "..."@);
        let headless = is_js_heavy_site(url.as_str());
        FetchRequest { tab_idx: i, url, headless, errors_as_blocked: true }
    }

    /// Goes back to the previous address of the active tab, if there is one.
    pub fn go_back(&mut self) -> (r: Option<FetchRequest>)
        requires
            old(self).wf(),
        ensures
            final(self).wf(),
            *final(self) == (App { tabs: final(self).tabs, status_message: final(self).status_message, ..*old(self) }),
            final(self).others_kept(old(self)),
            rest_kept(*final(self), *old(self)),
            old(self).current().back_stack@.len() == 0 ==> r is None && final(self).tabs == old(self).tabs
                && final(self).status_message@ == "No back history"@,
            old(self).current().back_stack@.len() > 0 ==> {
                &&& went_back(old(self).current(), final(self).current())
                &&& final(self).status_message == old(self).status_message
                &&& r matches Some(q) && q.tab_idx == old(self).active_tab && q.url@ == final(self).current().url@
                    && !q.headless && !q.errors_as_blocked
            },
    {
        let i = self.active_tab;
        if self.tabs[i].back_stack.len() == 0 {
            self.status_message = string_of(chars_of("No back history").as_slice());
            return None;
        }
        let ghost back = url_views(self.tabs@[i as int].back_stack@);
        let ghost fwd = url_views(self.tabs@[i as int].forward_stack@);
        let ghost cur = self.tabs@[i as int].url@;
        let url = self.tabs[i].back_stack.pop().unwrap();
        assert(url_views(self.tabs@[i as int].back_stack@) =~= back.drop_last());
        let here = self.tabs[i].url.clone();
        self.tabs[i].forward_stack.push(here);
        assert(url_views(self.tabs@[i as int].forward_stack@) =~= fwd.push(cur));
        self.tabs[i].url = url.clone();
        self.tabs[i].set_loading();
        Some(FetchRequest { tab_idx: i, url, headless: false, errors_as_blocked: false })
    }

    /// Goes forward to the next address of the active tab, if there is one.
    pub fn go_forward(&mut self) -> (r: Option<FetchRequest>)
        requires
            old(self).wf(),
        ensures
            final(self).wf(),
            *final(self) == (App { tabs: final(self).tabs, status_message: final(self).status_message, ..*old(self) }),
            final(self).others_kept(old(self)),
            rest_kept(*final(self), *old(self)),
            old(self).current().forward_stack@.len() == 0 ==> r is None && final(self).tabs == old(self).tabs
                && final(self).status_message@ == "No forward history"@,
            old(self).current().forward_stack@.len() > 0 ==> {
                &&& went_forward(old(self).current(), final(self).current())
                &&& final(self).status_message == old(self).status_message
                &&& r matches Some(q) && q.tab_idx == old(self).active_tab && q.url@ == final(self).current().url@
                    && !q.headless && !q.errors_as_blocked
            },
    {
        let i = self.active_tab;
        if self.tabs[i].forward_stack.len() == 0 {
            self.status_message = string_of(chars_of("No forward history").as_slice());
            return None;
        }
        let ghost back = url_views(self.tabs@[i as int].back_stack@);
        let ghost fwd = url_views(self.tabs@[i as int].forward_stack@);
        let ghost cur = self.tabs@[i as int].url@;
        let url = self.tabs[i].forward_stack.pop().unwrap();
        assert(url_views(self.tabs@[i as int].forward_stack@) =~= fwd.drop_last());
        let here = self.tabs[i].url.clone();
        self.tabs[i].back_stack.push(here);
        assert(url_views(self.tabs@[i as int].back_stack@) =~= back.push(cur));
        self.tabs[i].url = url.clone();
        self.tabs[i].set_loading();
        Some(FetchRequest { tab_idx: i, url, headless: false, errors_as_blocked: false })
    }
}

/// A tab just opened for an address.
pub open spec fn fresh_tab(t: Tab, url: Seq<char>) -> bool {
    &&& t.url@ == url
    &&& t.title@ == "New Tab"@
    &&& t.rendered is None
    &&& t.scroll == 0
    &&& t.scroll_max == 0
    &&& !t.loading
    &&& t.error is None
    &&& t.back_stack@.len() == 0
    &&& t.forward_stack@.len() == 0
    &&& display_view(t.display_lines@) == new_tab_lines()
}

/// Whether an address is one that can be loaded again: not the welcome
/// screen and not empty.
pub open spec fn loadable(url: Seq<char>) -> bool {
    url != "about:welcome"@ && url.len() > 0
}

/// Whether an address can be loaded: not the welcome screen and not empty.
fn is_loadable(url: &String) -> (b: bool)
    ensures
        b == loadable(url@),
{
    let welcome = chars_of("about:welcome");
    let c = chars_of(url.as_str());
    !chars_equal(c.as_slice(), welcome.as_slice()) && c.len() > 0
}

impl App {
    /// Loads the active tab's address again, unless it shows the welcome
    /// screen or has no address.
    pub fn reload(&mut self) -> (r: Option<FetchRequest>)
        requires
            old(self).wf(),
        ensures
            final(self).wf(),
            *final(self) == (App { tabs: final(self).tabs, status_message: final(self).status_message, ..*old(self) }),
            final(self).others_kept(old(self)),
            rest_kept(*final(self), *old(self)),
            !loadable(old(self).current().url@) ==> r is None && final(self).tabs == old(self).tabs
                && final(self).status_message == old(self).status_message,
            loadable(old(self).current().url@) ==> {
                let url = built_url(old(self).current().url@, old(self).config.search_engine@);
                &&& navigated(old(self).current(), final(self).current(), url)
                &&& r matches Some(q) && load_requested(*final(self), q, old(self).active_tab, url)
            },
    {
        let url = self.tabs[self.active_tab].url.clone();
        if !is_loadable(&url) {
            return None;
        }
        Some(self.navigate(url))
    }

    /// The same as `reload`.
    pub fn refresh(&mut self) -> (r: Option<FetchRequest>)
        requires
            old(self).wf(),
        ensures
            final(self).wf(),
            *final(self) == (App { tabs: final(self).tabs, status_message: final(self).status_message, ..*old(self) }),
            final(self).others_kept(old(self)),
            rest_kept(*final(self), *old(self)),
            !loadable(old(self).current().url@) ==> r is None && final(self).tabs == old(self).tabs
                && final(self).status_message == old(self).status_message,
            loadable(old(self).current().url@) ==> {
                let url = built_url(old(self).current().url@, old(self).config.search_engine@);
                &&& navigated(old(self).current(), final(self).current(), url)
                &&& r matches Some(q) && load_requested(*final(self), q, old(self).active_tab, url)
            },
    {
        self.reload()
    }

    /// Opens a tab for an address and makes it active; it starts loading
    /// unless the address is empty or the welcome screen.
    pub fn add_tab(&mut self, url: String) -> (r: Option<FetchRequest>)
        requires
            old(self).wf(),
        ensures
            final(self).wf(),
            *final(self) == (App { tabs: final(self).tabs, active_tab: final(self).active_tab, status_message: final(self).status_message, ..*old(self) }),
            rest_kept(*final(self), *old(self)),
            final(self).tabs@.len() == old(self).tabs@.len() + 1,
            final(self).active_tab == old(self).tabs@.len(),
            forall|i: int| 0 <= i < old(self).tabs@.len() ==> #[trigger] final(self).tabs@[i] == old(self).tabs@[i],
            !loadable(url@) ==> r is None && fresh_tab(final(self).current(), url@)
                && final(self).status_message == old(self).status_message,
            loadable(url@) ==> {
                let to = built_url(url@, old(self).config.search_engine@);
                let t = final(self).current();
                &&& t.url@ == to
                &&& url@ != to ==> url_views(t.back_stack@) == seq![url@]
                &&& url@ == to ==> t.back_stack@.len() == 0
                &&& t.forward_stack@.len() == 0
                &&& t.title@ == "New Tab"@
                &&& t.rendered is None
                &&& t.error is None
                &&& t.loading
                &&& display_view(t.display_lines@) == loading_lines()
                &&& t.scroll == 0
                &&& t.scroll_max == 0
                &&& r matches Some(q) && load_requested(*final(self), q, final(self).active_tab, to)
            },
    {
        let idx = self.tabs.len();
        let go = is_loadable(&url);
        let copy = url.clone();
        self.tabs.push(Tab::new(copy));
        self.active_tab = idx;
        assert(fresh_tab(self.current(), url@));
        if go {
            proof {
                reveal_strlit("about:welcome");
            }
            let r = self.navigate(url);
            assert(url_views(Seq::<String>::empty()).push(url@) =~= seq![url@]);
            Some(r)
        } else {
            None
        }
    }

    /// Opens the bookmark at a position of the list, if there is one.
    pub fn open_bookmark(&mut self, idx: usize) -> (r: Option<FetchRequest>)
        requires
            old(self).wf(),
        ensures
            final(self).wf(),
            *final(self) == (App { tabs: final(self).tabs, status_message: final(self).status_message, ..*old(self) }),
            final(self).others_kept(old(self)),
            rest_kept(*final(self), *old(self)),
            idx >= old(self).storage.bookmark_list().len() ==> r is None && final(self).tabs == old(self).tabs
                && final(self).status_message == old(self).status_message,
            idx < old(self).storage.bookmark_list().len() ==> {
                let url = built_url(old(self).storage.bookmark_list()[idx as int].1, old(self).config.search_engine@);
                &&& navigated(old(self).current(), final(self).current(), url)
                &&& r matches Some(q) && load_requested(*final(self), q, old(self).active_tab, url)
            },
    {
        let bms = self.storage.bookmarks();
        if idx < bms.len() {
            assert(crate::storage::bookmark_views(bms@)[idx as int] == bms@[idx as int]@);
            let url = bms[idx].url.clone();
            Some(self.navigate(url))
        } else {
            None
        }
    }

    /// Opens the history entry at a position of the newest-first list of the
    /// last 100 visits, if there is one.
    pub fn open_history_entry(&mut self, idx: usize) -> (r: Option<FetchRequest>)
        requires
            old(self).wf(),
        ensures
            final(self).wf(),
            *final(self) == (App { tabs: final(self).tabs, status_message: final(self).status_message, ..*old(self) }),
            final(self).others_kept(old(self)),
            rest_kept(*final(self), *old(self)),
            idx >= crate::storage::newest(old(self).storage.history_list(), 100).len() ==> r is None
                && final(self).tabs == old(self).tabs && final(self).status_message == old(self).status_message,
            idx < crate::storage::newest(old(self).storage.history_list(), 100).len() ==> {
                let url = built_url(
                    crate::storage::newest(old(self).storage.history_list(), 100)[idx as int].1,
                    old(self).config.search_engine@,
                );
                &&& navigated(old(self).current(), final(self).current(), url)
                &&& r matches Some(q) && load_requested(*final(self), q, old(self).active_tab, url)
            },
    {
        let hist = self.storage.history(100);
        if idx < hist.len() {
            assert(crate::storage::history_views(hist@)[idx as int] == hist@[idx as int]@);
            let url = hist[idx].url.clone();
            Some(self.navigate(url))
        } else {
            None
        }
    }

    /// Opens link number `num` (counted from 1) of the active tab's page, if
    /// it has one.
    pub fn open_link_by_number(&mut self, num: usize) -> (r: Option<FetchRequest>)
        requires
            old(self).wf(),
        ensures
            final(self).wf(),
            *final(self) == (App { tabs: final(self).tabs, status_message: final(self).status_message, ..*old(self) }),
            final(self).others_kept(old(self)),
            rest_kept(*final(self), *old(self)),
            match rendered_view(old(self).current().rendered) {
                Some(p) => if 0 < num <= p.3.len() {
                    let url = built_url(p.3[num - 1].0, old(self).config.search_engine@);
                    &&& navigated(old(self).current(), final(self).current(), url)
                    &&& r matches Some(q) && load_requested(*final(self), q, old(self).active_tab, url)
                } else {
                    r is None && final(self).tabs == old(self).tabs && final(self).status_message == old(self).status_message
                },
                None => r is None && final(self).tabs == old(self).tabs && final(self).status_message == old(self).status_message,
            },
    {
        let i = self.active_tab;
        let target = match &self.tabs[i].rendered {
            Some(page) => {
                if num > 0 && num <= page.links.len() {
                    assert(crate::renderer::links_view(page.links@)[num - 1] == (page.links@[num - 1].0@, page.links@[num - 1].1@));
                    Some(page.links[num - 1].0.clone())
                } else {
                    None
                }
            },
            None => None,
        };
        match target {
            Some(href) => Some(self.navigate(href)),
            None => None,
        }
    }
}

// ── Loaded pages ───────────────────────────────────────────────────────────

/// The tab after a page is shown in it: address, title and page set, the
/// page's lines laid out at 80 columns, at the top; the history of the tab
/// is kept.
pub open spec fn shows_page(before: Tab, after: Tab, url: Seq<char>, title: Seq<char>, p: PageV) -> bool {
    &&& after.url@ == url
    &&& after.title@ == title
    &&& rendered_view(after.rendered) == Some(p)
    &&& after.error is None
    &&& !after.loading
    &&& display_view(after.display_lines@) == page_display(p, 76)
    &&& after.scroll == 0
    &&& after.scroll_max == last_line(after.display_lines@.len())
    &&& after.back_stack == before.back_stack
    &&& after.forward_stack == before.forward_stack
}

/// The tab after a failed load: the error screen with the message.
pub open spec fn shows_error(before: Tab, after: Tab, msg: Seq<char>) -> bool {
    &&& after.url == before.url
    &&& after.title@ == "Error"@
    &&& after.rendered is None
    &&& display_view(after.display_lines@) == error_display(msg)
    &&& crate::config::opt_view(after.error) == Some(msg)
    &&& !after.loading
    &&& after.scroll == 0
    &&& after.scroll_max == 2
    &&& after.back_stack == before.back_stack
    &&& after.forward_stack == before.forward_stack
}

/// The page drawn from fetched HTML.
pub open spec fn html_page(html: Seq<char>, url: Seq<char>) -> PageV {
    crate::renderer::document_page(crate::dom::document(crate::renderer::stripped(html)), url)
}

/// The message for a page blocked by the ad blocker.
pub open spec fn blocked_message() -> Seq<char> {
    "Blocked by ad blocker (Ctrl+E to disable)"@
}

/// Whether an answer is for a tab that still waits for it: the tab exists
/// and still shows the address that was asked for.
pub open spec fn answer_current(tabs: Seq<Tab>, tab_idx: usize, url: Seq<char>) -> bool {
    tab_idx < tabs.len() && tabs[tab_idx as int].url@ == url
}

/// The title shown for a page fetched with scripts: the article's title when
/// Readability finds one, else the page's title.
pub open spec fn headless_title(html: Seq<char>, url: Seq<char>, config: crate::config::Config) -> (Seq<char>, bool) {
    match crate::purify::content_article(html, url, config.min_extracted_length as nat, config.include_links) {
        Ok(Some(a)) => (if a.0.len() == 0 {
            url
        } else {
            a.0
        }, true),
        _ => (html_page(html, url).0, false),
    }
}

impl App {
    /// Shows the page in a tab, lays it out, records the visit and reports it.
    fn show_page(&mut self, k: usize, page: RenderedPage, url: String, title: String, now: &str, js: bool)
        requires
            old(self).wf(),
            k < old(self).tabs@.len(),
        ensures
            final(self).wf(),
            final(self).tabs@.len() == old(self).tabs@.len(),
            final(self).active_tab == old(self).active_tab,
            forall|i: int| 0 <= i < final(self).tabs@.len() && i != k ==> #[trigger] final(self).tabs@[i] == old(self).tabs@[i],
            shows_page(old(self).tabs@[k as int], final(self).tabs@[k as int], url@, title@, page_view(page)),
            final(self).storage.history_list() == crate::storage::history_after_visit(
                old(self).storage.history_list(),
                (title@, url@, now@),
                old(self).storage.cfg().privacy_mode,
                old(self).storage.cfg().max_history as nat,
            ),
            final(self).storage.bookmark_list() == old(self).storage.bookmark_list(),
            final(self).storage.cfg() == old(self).storage.cfg(),
            final(self).status_message@ == (if js {
                "Loaded (JS): "@
            } else {
                "Loaded: "@
            }) + title@,
            final(self).search_results == old(self).search_results,
            final(self).search_idx == old(self).search_idx,
            final(self).config == old(self).config,
            final(self).should_quit == old(self).should_quit,
            final(self).mode == old(self).mode,
    {
        let ghost pv = page_view(page);
        self.tabs[k].url = url.clone();
        self.tabs[k].set_from_rendered(page);
        self.tabs[k].title = title.clone();
        self.tabs[k].wrap_content(80);
        self.storage.add_history(title.as_str(), url.as_str(), now);
        let lead: &str = if js { "Loaded (JS): " } else { "Loaded: " };
        let msg = crate::renderer::lit_cat(lead, chars_of(title.as_str()).as_slice());
        self.status_message = string_of(msg.as_slice());
    }

    /// Shows a failed load in a tab and reports it.
    fn show_error(&mut self, k: usize, msg: &str, status: String)
        requires
            old(self).wf(),
            k < old(self).tabs@.len(),
        ensures
            final(self).wf(),
            final(self).tabs@.len() == old(self).tabs@.len(),
            final(self).active_tab == old(self).active_tab,
            forall|i: int| 0 <= i < final(self).tabs@.len() && i != k ==> #[trigger] final(self).tabs@[i] == old(self).tabs@[i],
            shows_error(old(self).tabs@[k as int], final(self).tabs@[k as int], msg@),
            final(self).status_message == status,
            rest_kept(*final(self), *old(self)),
    {
        self.tabs[k].set_error(msg);
        self.status_message = status;
    }

    /// Takes the answer to a page load. An answer for
    /// a tab that is gone or has moved on is ignored. A fetched page is drawn
    /// and shown, the visit recorded (with the time stamp given) and reported;
    /// a page fetched with scripts takes the title of its article when
    /// Readability finds one. A blocked page and a failure show the error
    /// screen.
    pub fn process_load_result(&mut self, result: LoadResult, now: &str)
        requires
            old(self).wf(),
        ensures
            final(self).wf(),
            final(self).tabs@.len() == old(self).tabs@.len(),
            final(self).active_tab == old(self).active_tab,
            final(self).search_results == old(self).search_results,
            final(self).search_idx == old(self).search_idx,
            final(self).config == old(self).config,
            final(self).should_quit == old(self).should_quit,
            final(self).mode == old(self).mode,
            final(self).storage.bookmark_list() == old(self).storage.bookmark_list(),
            final(self).storage.cfg() == old(self).storage.cfg(),
            !answer_current(old(self).tabs@, result.tab_idx, result.url@) ==> final(self).tabs == old(self).tabs
                && final(self).storage == old(self).storage && final(self).status_message == old(self).status_message,
            answer_current(old(self).tabs@, result.tab_idx, result.url@) ==> {
                let k = result.tab_idx as int;
                let before = old(self).tabs@[k];
                let after = final(self).tabs@[k];
                &&& forall|i: int| 0 <= i < final(self).tabs@.len() && i != k ==> #[trigger] final(self).tabs@[i] == old(self).tabs@[i]
                &&& match result.result {
                    Ok(crate::browser::FetchResult::Http { html, final_url, .. }) => {
                        let p = html_page(html@, final_url@);
                        &&& shows_page(before, after, final_url@, p.0, p)
                        &&& final(self).storage.history_list() == crate::storage::history_after_visit(
                            old(self).storage.history_list(),
                            (p.0, final_url@, now@),
                            old(self).storage.cfg().privacy_mode,
                            old(self).storage.cfg().max_history as nat,
                        )
                        &&& final(self).status_message@ == "Loaded: "@ + p.0
                    },
                    Ok(crate::browser::FetchResult::Headless { html }) => {
                        let p = html_page(html@, before.url@);
                        let (title, js) = headless_title(html@, before.url@, old(self).config);
                        &&& shows_page(before, after, before.url@, title, p)
                        &&& final(self).storage.history_list() == crate::storage::history_after_visit(
                            old(self).storage.history_list(),
                            (title, before.url@, now@),
                            old(self).storage.cfg().privacy_mode,
                            old(self).storage.cfg().max_history as nat,
                        )
                        &&& final(self).status_message@ == (if js {
                            "Loaded (JS): "@
                        } else {
                            "Loaded: "@
                        }) + title
                    },
                    Ok(crate::browser::FetchResult::Blocked) => {
                        &&& shows_error(before, after, blocked_message())
                        &&& final(self).storage == old(self).storage
                        &&& final(self).status_message@ == "Blocked by ad blocker."@
                    },
                    Err(e) => {
                        &&& shows_error(before, after, e@)
                        &&& final(self).storage == old(self).storage
                        &&& final(self).status_message@ == "Error: "@ + e@
                    },
                }
            },
    {
        let k = result.tab_idx;
        if k >= self.tabs.len() {
            return;
        }
        let tab_url = self.tabs[k].url.clone();
        let a = chars_of(tab_url.as_str());
        let b = chars_of(result.url.as_str());
        if !chars_equal(a.as_slice(), b.as_slice()) {
            return;
        }
        match result.result {
            Ok(crate::browser::FetchResult::Http { html, final_url, .. }) => {
                let page = crate::renderer::render_html(html.as_str(), final_url.as_str());
                let title = page.title.clone();
                self.show_page(k, page, final_url, title, now, false);
            },
            Ok(crate::browser::FetchResult::Headless { html }) => {
                let article = crate::purify::extract_content(html.as_str(), tab_url.as_str(), &self.config);
                let page = crate::renderer::render_html(html.as_str(), tab_url.as_str());
                match article {
                    Ok(Some(art)) => {
                        let title = if art.title.as_str().is_empty() { tab_url.clone() } else { art.title };
                        self.show_page(k, page, tab_url, title, now, true);
                    },
                    _ => {
                        let title = page.title.clone();
                        self.show_page(k, page, tab_url, title, now, false);
                    },
                }
            },
            Ok(crate::browser::FetchResult::Blocked) => {
                let status = string_of(chars_of("Blocked by ad blocker.").as_slice());
                self.show_error(k, "Blocked by ad blocker (Ctrl+E to disable)", status);
            },
            Err(e) => {
                let status = string_of(crate::renderer::lit_cat("Error: ", chars_of(e.as_str()).as_slice()).as_slice());
                self.show_error(k, e.as_str(), status);
            },
        }
    }
}

// ── In-page search ─────────────────────────────────────────────────────────

/// The lines that contain the query, ignoring case: position and text.
pub open spec fn search_hits(lines: DisplayV, query: Seq<char>) -> Seq<(int, Seq<char>)>
    decreases lines.len(),
{
    if lines.len() == 0 {
        seq![]
    } else {
        let prev = search_hits(lines.drop_last(), query);
        let i = lines.len() - 1;
        if contains(lowercase(lines[i].0), lowercase(query)) {
            prev.push((i, lines[i].0))
        } else {
            prev
        }
    }
}

/// In-page search finds exactly the matching lines, in order: every line
/// whose lower-case text holds the lower-cased query is found, whatever its
/// bold flag, with its text; every result is such a line; and the results go
/// down the page, each line at most once.
pub proof fn law_search_finds_every_matching_line(lines: DisplayV, query: Seq<char>)
    ensures
        forall|i: int|
            0 <= i < lines.len() && contains(lowercase(#[trigger] lines[i].0), lowercase(query)) ==> exists|k: int|
                0 <= k < search_hits(lines, query).len() && #[trigger] search_hits(lines, query)[k] == (
                i,
                lines[i].0,
            ),
        forall|k: int|
            0 <= k < search_hits(lines, query).len() ==> {
                let h = #[trigger] search_hits(lines, query)[k];
                &&& 0 <= h.0 < lines.len()
                &&& h.1 == lines[h.0].0
                &&& contains(lowercase(lines[h.0].0), lowercase(query))
            },
        forall|k: int, m: int|
            0 <= k < m < search_hits(lines, query).len() ==> #[trigger] search_hits(lines, query)[k].0
                < #[trigger] search_hits(lines, query)[m].0,
    decreases lines.len(),
{
    if lines.len() > 0 {
        let front = lines.drop_last();
        law_search_finds_every_matching_line(front, query);
        let prev = search_hits(front, query);
        let hits = search_hits(lines, query);
        let n = lines.len() - 1;
        assert forall|i: int|
            0 <= i < lines.len() && contains(lowercase(#[trigger] lines[i].0), lowercase(query)) implies exists|k: int|
                0 <= k < hits.len() && #[trigger] hits[k] == (i, lines[i].0) by {
            if i < n {
                assert(lines[i] == front[i]);
                let k = choose|k: int| 0 <= k < prev.len() && #[trigger] prev[k] == (i, front[i].0);
                assert(hits[k] == prev[k]);
            } else {
                assert(hits[prev.len() as int] == (i, lines[i].0));
            }
        }
        assert forall|k: int| 0 <= k < hits.len() implies {
            let h = #[trigger] hits[k];
            &&& 0 <= h.0 < lines.len()
            &&& h.1 == lines[h.0].0
            &&& contains(lowercase(lines[h.0].0), lowercase(query))
        } by {
            if k < prev.len() {
                assert(hits[k] == prev[k]);
                assert(lines[prev[k].0] == front[prev[k].0]);
            }
        }
        assert forall|k: int, m: int| 0 <= k < m < hits.len() implies #[trigger] hits[k].0 < #[trigger] hits[m].0 by {
            assert(hits[k] == prev[k]);
            if m < prev.len() {
                assert(hits[m] == prev[m]);
            }
        }
    }
}

/// The values of search results.
pub open spec fn hits_view(v: Seq<(usize, String)>) -> Seq<(int, Seq<char>)> {
    v.map_values(|h: (usize, String)| (h.0 as int, h.1@))
}

/// The result after the current one, going round.
pub open spec fn next_index(i: nat, n: nat) -> nat {
    (i + 1) % n
}

/// The result before the current one, going round.
pub open spec fn prev_index(i: nat, n: nat) -> nat {
    if i == 0 {
        (n - 1) as nat
    } else {
        (i - 1) as nat
    }
}

/// A hit is on a line of the screen it was found on.
proof fn lemma_hits_in_range(lines: DisplayV, query: Seq<char>)
    ensures
        forall|j: int| 0 <= j < search_hits(lines, query).len() ==> 0 <= (#[trigger] search_hits(lines, query)[j]).0 < lines.len(),
    decreases lines.len(),
{
    if lines.len() > 0 {
        lemma_hits_in_range(lines.drop_last(), query);
        let prev = search_hits(lines.drop_last(), query);
        assert forall|j: int| 0 <= j < search_hits(lines, query).len() implies 0 <= (#[trigger] search_hits(
            lines,
            query,
        )[j]).0 < lines.len() by {
            if j < prev.len() {
                assert(search_hits(lines, query)[j] == prev[j]);
            }
        }
    }
}

impl App {
    /// Searches the active tab's screen for the query, ignoring case, and
    /// scrolls to the first line found.
    pub fn run_search(&mut self)
        requires
            old(self).wf(),
        ensures
            final(self).wf(),
            *final(self) == (App { tabs: final(self).tabs, search_results: final(self).search_results, search_idx: final(self).search_idx, status_message: final(self).status_message, ..*old(self) }),
            final(self).others_kept(old(self)),
            hits_view(final(self).search_results@) == search_hits(
                display_view(old(self).current().display_lines@),
                old(self).search_query@,
            ),
            final(self).search_idx == 0,
            final(self).search_results@.len() > 0 ==> {
                &&& final(self).current() == (Tab { scroll: final(self).search_results@[0].0, ..old(self).current() })
                &&& final(self).status_message@ == "Found "@ + crate::display::decimal(
                    final(self).search_results@.len(),
                ) + " matches"@
            },
            final(self).search_results@.len() == 0 ==> final(self).tabs == old(self).tabs
                && final(self).status_message@ == "No matches found."@,
            old(self).current().scroll_ok() ==> final(self).current().scroll_ok(),
            final(self).storage == old(self).storage,
            final(self).config == old(self).config,
            final(self).should_quit == old(self).should_quit,
            final(self).mode == old(self).mode,
    {
        let q = str_to_lowercase(self.search_query.as_str());
        let qc = chars_of(q.as_str());
        let i = self.active_tab;
        let ghost lines = display_view(self.tabs@[i as int].display_lines@);
        let mut results: Vec<(usize, String)> = Vec::new();
        let mut k: usize = 0;
        let n = self.tabs[i].display_lines.len();
        while k < n
            invariant
                k <= n == lines.len(),
                i < self.tabs@.len(),
                lines == display_view(self.tabs@[i as int].display_lines@),
                qc@ == lowercase(self.search_query@),
                hits_view(results@) == search_hits(lines.take(k as int), self.search_query@),
            decreases n - k,
        {
            assert(lines.take(k + 1).drop_last() =~= lines.take(k as int));
            let text = self.tabs[i].display_lines[k].0.clone();
            let lower = str_to_lowercase(text.as_str());
            let lc = chars_of(lower.as_str());
            assert(lines.take(k + 1)[k as int].0 == text@);
            if contains_chars(lc.as_slice(), qc.as_slice()) {
                let ghost before = hits_view(results@);
                results.push((k, text));
                assert(hits_view(results@) =~= before.push((k as int, lines[k as int].0)));
            }
            k += 1;
        }
        assert(lines.take(k as int) =~= lines);
        proof {
            lemma_hits_in_range(lines, self.search_query@);
        }
        self.search_results = results;
        self.search_idx = 0;
        if self.search_results.len() > 0 {
            let mut msg = crate::renderer::lit_cat("Found ", &[]);
            crate::display::push_decimal(&mut msg, self.search_results.len());
            let tail = chars_of(" matches");
            crate::text::extend_chars(&mut msg, tail.as_slice());
            self.status_message = string_of(msg.as_slice());
            assert(hits_view(self.search_results@)[0].0 == self.search_results@[0].0 as int);
            let first = self.search_results[0].0;
            self.tabs[i].scroll = first;
        } else {
            self.status_message = string_of(chars_of("No matches found.").as_slice());
        }
    }

    /// Moves to the next search result, going round, and scrolls to it.
    pub fn next_search(&mut self)
        requires
            old(self).wf(),
        ensures
            final(self).wf(),
            *final(self) == (App { tabs: final(self).tabs, search_idx: final(self).search_idx, ..*old(self) }),
            final(self).others_kept(old(self)),
            final(self).search_results == old(self).search_results,
            old(self).search_results@.len() == 0 ==> final(self).tabs == old(self).tabs
                && final(self).search_idx == old(self).search_idx,
            old(self).search_results@.len() > 0 ==> {
                &&& final(self).search_idx == next_index(old(self).search_idx as nat, old(self).search_results@.len())
                &&& final(self).current() == (Tab {
                    scroll: old(self).search_results@[final(self).search_idx as int].0,
                    ..old(self).current()
                })
            },
            final(self).status_message == old(self).status_message,
            final(self).storage == old(self).storage,
            final(self).config == old(self).config,
    {
        if self.search_results.len() == 0 {
            return;
        }
        self.search_idx = (self.search_idx + 1) % self.search_results.len();
        let i = self.active_tab;
        let line = self.search_results[self.search_idx].0;
        self.tabs[i].scroll = line;
    }

    /// Moves to the previous search result, going round, and scrolls to it.
    pub fn prev_search(&mut self)
        requires
            old(self).wf(),
        ensures
            final(self).wf(),
            *final(self) == (App { tabs: final(self).tabs, search_idx: final(self).search_idx, ..*old(self) }),
            final(self).others_kept(old(self)),
            final(self).search_results == old(self).search_results,
            old(self).search_results@.len() == 0 ==> final(self).tabs == old(self).tabs
                && final(self).search_idx == old(self).search_idx,
            old(self).search_results@.len() > 0 ==> {
                &&& final(self).search_idx == prev_index(old(self).search_idx as nat, old(self).search_results@.len())
                &&& final(self).current() == (Tab {
                    scroll: old(self).search_results@[final(self).search_idx as int].0,
                    ..old(self).current()
                })
            },
            final(self).status_message == old(self).status_message,
            final(self).storage == old(self).storage,
            final(self).config == old(self).config,
    {
        if self.search_results.len() == 0 {
            return;
        }
        self.search_idx = if self.search_idx == 0 { self.search_results.len() - 1 } else { self.search_idx - 1 };
        let i = self.active_tab;
        let line = self.search_results[self.search_idx].0;
        self.tabs[i].scroll = line;
    }
}

// ── Bookmarks and settings ─────────────────────────────────────────────────

/// Everything but the storage, the settings and the status line is as it
/// was.
pub open spec fn view_kept(after: App, before: App) -> bool {
    &&& after.tabs == before.tabs
    &&& after.active_tab == before.active_tab
    &&& after.search_results == before.search_results
    &&& after.search_idx == before.search_idx
    &&& after.should_quit == before.should_quit
    &&& after.mode == before.mode
}

/// "ON" or "OFF".
pub open spec fn on_off(b: bool) -> Seq<char> {
    if b {
        "ON"@
    } else {
        "OFF"@
    }
}

impl App {
    /// Bookmarks the active tab's page, or removes its bookmark; a new bookmark gets the time stamp given. The
    /// welcome screen and a tab without an address cannot be bookmarked.
    pub fn toggle_bookmark(&mut self, now: &str)
        requires
            old(self).wf(),
        ensures
            final(self).wf(),
            *final(self) == (App { storage: final(self).storage, status_message: final(self).status_message, ..*old(self) }),
            view_kept(*final(self), *old(self)),
            final(self).config == old(self).config,
            !loadable(old(self).current().url@) ==> final(self).storage == old(self).storage
                && final(self).status_message@ == "No page to bookmark."@,
            loadable(old(self).current().url@) ==> {
                let t = old(self).current();
                let had = crate::storage::has_url(old(self).storage.bookmark_list(), t.url@);
                &&& !had ==> final(self).storage.bookmark_list() == crate::storage::bookmarks_after_add(
                    old(self).storage.bookmark_list(),
                    (t.title@, t.url@, now@),
                    old(self).storage.cfg().max_bookmarks as nat,
                ) && final(self).status_message@ == "★ Bookmark added!"@
                &&& had ==> final(self).storage.bookmark_list() == crate::storage::bookmarks_after_remove(
                    old(self).storage.bookmark_list(),
                    t.url@,
                ) && final(self).status_message@ == "★ Bookmark removed."@
                &&& final(self).storage.history_list() == old(self).storage.history_list()
                &&& final(self).storage.cfg() == old(self).storage.cfg()
            },
    {
        let i = self.active_tab;
        let url = self.tabs[i].url.clone();
        if !is_loadable(&url) {
            self.status_message = string_of(chars_of("No page to bookmark.").as_slice());
            return;
        }
        let title = self.tabs[i].title.clone();
        let added = self.storage.toggle_bookmark(title.as_str(), url.as_str(), now);
        if added {
            self.status_message = string_of(chars_of("★ Bookmark added!").as_slice());
        } else {
            self.status_message = string_of(chars_of("★ Bookmark removed.").as_slice());
        }
    }

    /// Chooses a built-in search engine by name; an unknown name changes
    /// nothing.
    pub fn set_search_engine(&mut self, name: &str)
        requires
            old(self).wf(),
        ensures
            final(self).wf(),
            *final(self) == (App { config: final(self).config, storage: final(self).storage, status_message: final(self).status_message, ..*old(self) }),
            view_kept(*final(self), *old(self)),
            match crate::search_engine::engine_url_of(name@, crate::config::search_engine_table()) {
                Some(u) => {
                    &&& final(self).config == (crate::config::Config { search_engine: final(self).config.search_engine, ..old(self).config })
                    &&& final(self).config.search_engine@ == u
                    &&& final(self).storage.cfg() == crate::storage::changed_config(
                        old(self).storage.cfg(),
                        crate::storage::ConfigChange::SearchEngine(final(self).config.search_engine),
                    )
                    &&& final(self).storage.bookmark_list() == old(self).storage.bookmark_list()
                    &&& final(self).storage.history_list() == old(self).storage.history_list()
                    &&& final(self).status_message@ == "Search engine set to "@ + name@
                },
                None => final(self).config == old(self).config && final(self).storage == old(self).storage
                    && final(self).status_message == old(self).status_message,
            },
    {
        if let Some(u) = crate::search_engine::engine_url(name) {
            let url = string_of(chars_of(u).as_slice());
            self.config.search_engine = url.clone();
            self.storage.update_config(crate::storage::ConfigChange::SearchEngine(url));
            self.status_message = string_of(crate::renderer::lit_cat("Search engine set to ", chars_of(name).as_slice()).as_slice());
        }
    }

    /// Sets the home page.
    pub fn set_homepage(&mut self, url: &str)
        requires
            old(self).wf(),
        ensures
            final(self).wf(),
            *final(self) == (App { config: final(self).config, storage: final(self).storage, status_message: final(self).status_message, ..*old(self) }),
            view_kept(*final(self), *old(self)),
            final(self).config == (crate::config::Config { homepage: final(self).config.homepage, ..old(self).config }),
            final(self).config.homepage@ == url@,
            final(self).storage.cfg() == crate::storage::changed_config(
                old(self).storage.cfg(),
                crate::storage::ConfigChange::Homepage(final(self).config.homepage),
            ),
            final(self).storage.bookmark_list() == old(self).storage.bookmark_list(),
            final(self).storage.history_list() == old(self).storage.history_list(),
            final(self).status_message@ == "Homepage updated."@,
    {
        let u = string_of(chars_of(url).as_slice());
        self.config.homepage = u.clone();
        self.storage.update_config(crate::storage::ConfigChange::Homepage(u));
        self.status_message = string_of(chars_of("Homepage updated.").as_slice());
    }

    /// Switches ad blocking on or off.
    pub fn toggle_adblock(&mut self)
        requires
            old(self).wf(),
        ensures
            final(self).wf(),
            *final(self) == (App { config: final(self).config, storage: final(self).storage, status_message: final(self).status_message, ..*old(self) }),
            view_kept(*final(self), *old(self)),
            final(self).config == (crate::config::Config { adblock_enabled: !old(self).config.adblock_enabled, ..old(self).config }),
            final(self).storage.cfg() == crate::storage::changed_config(
                old(self).storage.cfg(),
                crate::storage::ConfigChange::Adblock(!old(self).config.adblock_enabled),
            ),
            final(self).storage.bookmark_list() == old(self).storage.bookmark_list(),
            final(self).storage.history_list() == old(self).storage.history_list(),
            final(self).status_message@ == "Ad blocker: "@ + on_off(final(self).config.adblock_enabled),
    {
        self.config.adblock_enabled = !self.config.adblock_enabled;
        let on = self.config.adblock_enabled;
        self.storage.update_config(crate::storage::ConfigChange::Adblock(on));
        let state: &str = if on { "ON" } else { "OFF" };
        self.status_message = string_of(crate::renderer::lit_cat("Ad blocker: ", chars_of(state).as_slice()).as_slice());
    }

    /// Switches privacy mode on or off.
    pub fn toggle_privacy_mode(&mut self)
        requires
            old(self).wf(),
        ensures
            final(self).wf(),
            *final(self) == (App { config: final(self).config, storage: final(self).storage, status_message: final(self).status_message, ..*old(self) }),
            view_kept(*final(self), *old(self)),
            final(self).config == (crate::config::Config { privacy_mode: !old(self).config.privacy_mode, ..old(self).config }),
            final(self).storage.cfg() == crate::storage::changed_config(
                old(self).storage.cfg(),
                crate::storage::ConfigChange::Privacy(!old(self).config.privacy_mode),
            ),
            final(self).storage.bookmark_list() == old(self).storage.bookmark_list(),
            final(self).storage.history_list() == old(self).storage.history_list(),
            final(self).status_message@ == "Privacy mode: "@ + on_off(final(self).config.privacy_mode),
    {
        self.config.privacy_mode = !self.config.privacy_mode;
        let on = self.config.privacy_mode;
        self.storage.update_config(crate::storage::ConfigChange::Privacy(on));
        let state: &str = if on { "ON" } else { "OFF" };
        self.status_message = string_of(crate::renderer::lit_cat("Privacy mode: ", chars_of(state).as_slice()).as_slice());
    }

    /// Sets the proxy address; an empty address switches the proxy off.
    pub fn set_proxy(&mut self, url: &str)
        requires
            old(self).wf(),
        ensures
            final(self).wf(),
            *final(self) == (App { config: final(self).config, storage: final(self).storage, status_message: final(self).status_message, ..*old(self) }),
            view_kept(*final(self), *old(self)),
            final(self).config == (crate::config::Config {
                proxy_enabled: url@.len() > 0,
                proxy_url: final(self).config.proxy_url,
                ..old(self).config
            }),
            final(self).config.proxy_url@ == url@,
            final(self).storage.cfg() == crate::storage::changed_config(
                old(self).storage.cfg(),
                crate::storage::ConfigChange::Proxy(url@.len() > 0, final(self).config.proxy_url),
            ),
            final(self).storage.bookmark_list() == old(self).storage.bookmark_list(),
            final(self).storage.history_list() == old(self).storage.history_list(),
            final(self).status_message@ == if url@.len() > 0 {
                "Proxy set to "@ + url@
            } else {
                "Proxy disabled."@
            },
    {
        let enabled = !url.is_empty();
        let u = string_of(chars_of(url).as_slice());
        self.config.proxy_enabled = enabled;
        self.config.proxy_url = u.clone();
        self.storage.update_config(crate::storage::ConfigChange::Proxy(enabled, u));
        if enabled {
            self.status_message = string_of(crate::renderer::lit_cat("Proxy set to ", chars_of(url).as_slice()).as_slice());
        } else {
            self.status_message = string_of(chars_of("Proxy disabled.").as_slice());
        }
    }
}

// ── Laws ───────────────────────────────────────────────────────────────────

/// Going back and then forward returns a tab to the address it was on, with
/// the same back and forward stacks.
pub proof fn law_back_then_forward(t0: Tab, t1: Tab, t2: Tab)
    requires
        went_back(t0, t1),
        went_forward(t1, t2),
    ensures
        t2.url@ == t0.url@,
        url_views(t2.back_stack@) == url_views(t0.back_stack@),
        url_views(t2.forward_stack@) == url_views(t0.forward_stack@),
{
    let b0 = url_views(t0.back_stack@);
    assert(url_views(t1.forward_stack@).last() == t0.url@);
    assert(t2.url@ == t1.forward_stack@.last()@);
    assert(url_views(t1.forward_stack@)[t1.forward_stack@.len() - 1] == t1.forward_stack@[t1.forward_stack@.len() - 1]@);
    assert(url_views(t2.back_stack@) =~= b0.drop_last().push(t1.url@));
    assert(t1.url@ == t0.back_stack@.last()@);
    assert(b0[b0.len() - 1] == t0.back_stack@[t0.back_stack@.len() - 1]@);
    assert(b0.drop_last().push(b0.last()) =~= b0);
    assert(url_views(t2.forward_stack@) =~= url_views(t0.forward_stack@).push(t0.url@).drop_last());
}

/// Going forward and then back returns a tab to the address it was on, with
/// the same back and forward stacks.
pub proof fn law_forward_then_back(t0: Tab, t1: Tab, t2: Tab)
    requires
        went_forward(t0, t1),
        went_back(t1, t2),
    ensures
        t2.url@ == t0.url@,
        url_views(t2.back_stack@) == url_views(t0.back_stack@),
        url_views(t2.forward_stack@) == url_views(t0.forward_stack@),
{
    let f0 = url_views(t0.forward_stack@);
    assert(url_views(t1.back_stack@).last() == t0.url@);
    assert(url_views(t1.back_stack@)[t1.back_stack@.len() - 1] == t1.back_stack@[t1.back_stack@.len() - 1]@);
    assert(url_views(t2.forward_stack@) =~= f0.drop_last().push(t1.url@));
    assert(t1.url@ == t0.forward_stack@.last()@);
    assert(f0[f0.len() - 1] == t0.forward_stack@[t0.forward_stack@.len() - 1]@);
    assert(f0.drop_last().push(f0.last()) =~= f0);
    assert(url_views(t2.back_stack@) =~= url_views(t0.back_stack@).push(t0.url@).drop_last());
}

/// After moving from one page to another, going back returns to the first
/// page and offers the second to go forward to.
pub proof fn law_navigate_then_back(t0: Tab, t1: Tab, t2: Tab, url: Seq<char>)
    requires
        navigated(t0, t1, url),
        t0.url@ != "about:welcome"@,
        t0.url@ != url,
        went_back(t1, t2),
    ensures
        t2.url@ == t0.url@,
        url_views(t2.back_stack@) == url_views(t0.back_stack@),
        url_views(t2.forward_stack@) == seq![url],
{
    let b1 = url_views(t1.back_stack@);
    assert(b1[b1.len() - 1] == t1.back_stack@[t1.back_stack@.len() - 1]@);
    assert(url_views(t0.back_stack@).push(t0.url@).drop_last() =~= url_views(t0.back_stack@));
    assert(url_views(t1.forward_stack@) =~= Seq::<Seq<char>>::empty());
    assert(url_views(t2.forward_stack@) =~= seq![url]);
}

/// Moving to the next search result and back returns to the same result,
/// and so does the other way round.
pub proof fn law_search_round_trip(i: nat, n: nat)
    requires
        i < n,
    ensures
        prev_index(next_index(i, n), n) == i,
        next_index(prev_index(i, n), n) == i,
{
    if i + 1 < n {
        assert((i + 1) % n == i + 1) by (nonlinear_arith)
            requires
                i + 1 < n,
        ;
    } else {
        assert((i + 1) % n == 0) by (nonlinear_arith)
            requires
                i + 1 == n,
        ;
    }
    if i == 0 {
        assert(n % n == 0) by (nonlinear_arith)
            requires
                n > 0,
        ;
    } else {
        assert(i % n == i) by (nonlinear_arith)
            requires
                i < n,
        ;
    }
}

} // verus!
