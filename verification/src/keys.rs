//! The key bindings: what each key does in each mode.
//!
//! A key press is decided in two steps: `key_command` names the command
//! that the key stands for in the current mode, and `App::perform` carries
//! it out.
use vstd::prelude::*;
use crate::app::{App, FetchRequest, Mode, Tab};

verus! {

/// A key, as the bindings see it.
#[derive(Debug, PartialEq, Eq, Structural, Clone, Copy)]
pub enum KeyCode {
    Char(char),
    Enter,
    Esc,
    Tab,
    BackTab,
    Up,
    Down,
    PageUp,
    PageDown,
    Backspace,
    Other,
}

/// A key press: the key, and whether Control and no other modifier was
/// held.
#[derive(Debug, PartialEq, Eq, Structural, Clone, Copy)]
pub struct Key {
    pub code: KeyCode,
    pub ctrl: bool,
}

/// What a key press does.
#[derive(Debug, PartialEq, Eq, Structural, Clone, Copy)]
pub enum Command {
    /// Nothing.
    Nothing,
    Quit,
    /// Opens a tab on the welcome screen and asks for an address.
    NewTab,
    CloseTab,
    NextTab,
    PrevTab,
    /// Asks for an address, offering the current one (none on the welcome
    /// screen).
    OpenUrl,
    /// Loads the current address again, unless it is the welcome screen.
    LoadCurrent,
    Back,
    Forward,
    Reload,
    /// Asks for an address, offering the current one.
    EditUrl,
    ScrollDown(usize),
    ScrollUp(usize),
    Top,
    Bottom,
    /// Starts a new in-page search.
    StartSearch,
    NextMatch,
    PrevMatch,
    ShowBookmarks,
    ShowHistory,
    ShowSettings,
    ToggleAdblock,
    TogglePrivacy,
    ShowHelp,
    /// Opens the link with this number (from 1).
    OpenLink(usize),
    /// Back to normal mode, with the idle status.
    Leave,
    /// Loads the typed address, then back to normal mode.
    SubmitUrl,
    /// Adds a character to what is typed.
    TypeUrl(char),
    /// Removes the last typed character.
    EraseUrl,
    /// Moves to the next tab and offers its address.
    UrlNextTab,
    /// Runs the search, then back to normal mode.
    SubmitSearch,
    /// Drops the search, then back to normal mode.
    CancelSearch,
    TypeSearch(char),
    EraseSearch,
    /// Opens the bookmark at this position (from 0), then back to normal
    /// mode.
    OpenBookmark(usize),
    /// Removes the newest bookmark.
    DeleteLastBookmark,
    /// Opens the history entry at this position (from 0), then back to
    /// normal mode.
    OpenHistory(usize),
    /// Forgets the history, then back to normal mode.
    ClearHistory,
    /// Asks for a new home page, offering the current one.
    EditHomepage,
    /// Moves to the next built-in search engine.
    NextEngine,
}

/// Whether a character is one of the digits 1 to 9.
pub open spec fn nonzero_digit(c: char) -> bool {
    '1' <= c <= '9'
}

/// The value of a digit.
pub open spec fn digit_value(c: char) -> nat {
    (c as nat - '0' as nat) as nat
}

/// The bindings of normal mode, tried in order.
pub open spec fn normal_command(key: Key) -> Command {
    let c = key.code;
    if c == KeyCode::Char('q') || (c == KeyCode::Char('c') && key.ctrl) {
        Command::Quit
    } else if c == KeyCode::Char('t') && key.ctrl {
        Command::NewTab
    } else if c == KeyCode::Char('w') && key.ctrl {
        Command::CloseTab
    } else if c == KeyCode::Tab {
        Command::NextTab
    } else if c == KeyCode::BackTab {
        Command::PrevTab
    } else if c == KeyCode::Char('l') && key.ctrl {
        Command::OpenUrl
    } else if c == KeyCode::Enter {
        Command::LoadCurrent
    } else if (c == KeyCode::Char('b') || c == KeyCode::Char('B')) && key.ctrl {
        Command::ShowBookmarks
    } else if c == KeyCode::Char('b') {
        Command::Back
    } else if c == KeyCode::Char('f') {
        Command::Forward
    } else if c == KeyCode::Char('r') {
        Command::Reload
    } else if c == KeyCode::Char('R') {
        Command::EditUrl
    } else if c == KeyCode::Char('j') || c == KeyCode::Down {
        Command::ScrollDown(1)
    } else if c == KeyCode::Char('k') || c == KeyCode::Up {
        Command::ScrollUp(1)
    } else if c == KeyCode::Char('d') && key.ctrl {
        Command::ScrollDown(20)
    } else if c == KeyCode::Char('u') && key.ctrl {
        Command::ScrollUp(20)
    } else if c == KeyCode::Char('g') {
        Command::Top
    } else if c == KeyCode::Char('G') {
        Command::Bottom
    } else if c == KeyCode::PageDown {
        Command::ScrollDown(40)
    } else if c == KeyCode::PageUp {
        Command::ScrollUp(40)
    } else if c == KeyCode::Char('/') {
        Command::StartSearch
    } else if c == KeyCode::Char('n') {
        Command::NextMatch
    } else if c == KeyCode::Char('N') {
        Command::PrevMatch
    } else if c == KeyCode::Char('h') && key.ctrl {
        Command::ShowHistory
    } else if c == KeyCode::Char('s') && key.ctrl {
        Command::ShowSettings
    } else if c == KeyCode::Char('e') && key.ctrl {
        Command::ToggleAdblock
    } else if c == KeyCode::Char('p') && key.ctrl {
        Command::TogglePrivacy
    } else if c == KeyCode::Char('?') {
        Command::ShowHelp
    } else {
        match c {
            KeyCode::Char(d) => if nonzero_digit(d) {
                Command::OpenLink(digit_value(d) as usize)
            } else {
                Command::Nothing
            },
            _ => Command::Nothing,
        }
    }
}

/// The bindings of the address prompt.
pub open spec fn url_input_command(key: Key) -> Command {
    match key.code {
        KeyCode::Enter => Command::SubmitUrl,
        KeyCode::Esc => Command::Leave,
        KeyCode::Char(c) => Command::TypeUrl(c),
        KeyCode::Backspace => Command::EraseUrl,
        KeyCode::Tab => Command::UrlNextTab,
        _ => Command::Nothing,
    }
}

/// The bindings of the search prompt.
pub open spec fn search_command(key: Key) -> Command {
    match key.code {
        KeyCode::Enter => Command::SubmitSearch,
        KeyCode::Esc => Command::CancelSearch,
        KeyCode::Char(c) => Command::TypeSearch(c),
        KeyCode::Backspace => Command::EraseSearch,
        _ => Command::Nothing,
    }
}

/// The bindings of the bookmark list.
pub open spec fn bookmarks_command(key: Key) -> Command {
    match key.code {
        KeyCode::Esc => Command::Leave,
        KeyCode::Char(c) => if nonzero_digit(c) {
            Command::OpenBookmark((digit_value(c) - 1) as usize)
        } else if c == 'd' {
            Command::DeleteLastBookmark
        } else {
            Command::Nothing
        },
        _ => Command::Nothing,
    }
}

/// The bindings of the history list.
pub open spec fn history_command(key: Key) -> Command {
    match key.code {
        KeyCode::Esc => Command::Leave,
        KeyCode::Char(c) => if nonzero_digit(c) {
            Command::OpenHistory((digit_value(c) - 1) as usize)
        } else if c == 'c' || c == 'C' {
            Command::ClearHistory
        } else {
            Command::Nothing
        },
        _ => Command::Nothing,
    }
}

/// The bindings of the settings screen.
pub open spec fn settings_command(key: Key) -> Command {
    match key.code {
        KeyCode::Esc => Command::Leave,
        KeyCode::Char('a') => Command::ToggleAdblock,
        KeyCode::Char('p') => Command::TogglePrivacy,
        KeyCode::Char('h') => Command::EditHomepage,
        KeyCode::Char('s') => Command::NextEngine,
        _ => Command::Nothing,
    }
}

/// The bindings of the help screen.
pub open spec fn help_command(key: Key) -> Command {
    if key.code == KeyCode::Esc || key.code == KeyCode::Char('?') {
        Command::Leave
    } else {
        Command::Nothing
    }
}

/// What a key press does in a mode.
pub open spec fn command_for(mode: Mode, key: Key) -> Command {
    match mode {
        Mode::Normal => normal_command(key),
        Mode::UrlInput => url_input_command(key),
        Mode::Search => search_command(key),
        Mode::Bookmarks => bookmarks_command(key),
        Mode::History => history_command(key),
        Mode::Settings => settings_command(key),
        Mode::Help => help_command(key),
    }
}

/// Whether the character is one of the digits 1 to 9.
fn is_nonzero_digit(c: char) -> (b: bool)
    ensures
        b == nonzero_digit(c),
{
    '1' <= c && c <= '9'
}

/// The value of a digit from 1 to 9.
fn digit_of(c: char) -> (n: usize)
    requires
        nonzero_digit(c),
    ensures
        n == digit_value(c),
        1 <= n <= 9,
{
    (c as u32 - '0' as u32) as usize
}

/// The command of a key press in normal mode.
fn normal_key(key: Key) -> (c: Command)
    ensures
        c == normal_command(key),
{
    let k = key.code;
    if k == KeyCode::Char('q') || (k == KeyCode::Char('c') && key.ctrl) {
        Command::Quit
    } else if k == KeyCode::Char('t') && key.ctrl {
        Command::NewTab
    } else if k == KeyCode::Char('w') && key.ctrl {
        Command::CloseTab
    } else if k == KeyCode::Tab {
        Command::NextTab
    } else if k == KeyCode::BackTab {
        Command::PrevTab
    } else if k == KeyCode::Char('l') && key.ctrl {
        Command::OpenUrl
    } else if k == KeyCode::Enter {
        Command::LoadCurrent
    } else if (k == KeyCode::Char('b') || k == KeyCode::Char('B')) && key.ctrl {
        Command::ShowBookmarks
    } else if k == KeyCode::Char('b') {
        Command::Back
    } else if k == KeyCode::Char('f') {
        Command::Forward
    } else if k == KeyCode::Char('r') {
        Command::Reload
    } else if k == KeyCode::Char('R') {
        Command::EditUrl
    } else if k == KeyCode::Char('j') || k == KeyCode::Down {
        Command::ScrollDown(1)
    } else if k == KeyCode::Char('k') || k == KeyCode::Up {
        Command::ScrollUp(1)
    } else if k == KeyCode::Char('d') && key.ctrl {
        Command::ScrollDown(20)
    } else if k == KeyCode::Char('u') && key.ctrl {
        Command::ScrollUp(20)
    } else if k == KeyCode::Char('g') {
        Command::Top
    } else if k == KeyCode::Char('G') {
        Command::Bottom
    } else if k == KeyCode::PageDown {
        Command::ScrollDown(40)
    } else if k == KeyCode::PageUp {
        Command::ScrollUp(40)
    } else if k == KeyCode::Char('/') {
        Command::StartSearch
    } else if k == KeyCode::Char('n') {
        Command::NextMatch
    } else if k == KeyCode::Char('N') {
        Command::PrevMatch
    } else if k == KeyCode::Char('h') && key.ctrl {
        Command::ShowHistory
    } else if k == KeyCode::Char('s') && key.ctrl {
        Command::ShowSettings
    } else if k == KeyCode::Char('e') && key.ctrl {
        Command::ToggleAdblock
    } else if k == KeyCode::Char('p') && key.ctrl {
        Command::TogglePrivacy
    } else if k == KeyCode::Char('?') {
        Command::ShowHelp
    } else {
        match k {
            KeyCode::Char(d) => if is_nonzero_digit(d) {
                Command::OpenLink(digit_of(d))
            } else {
                Command::Nothing
            },
            _ => Command::Nothing,
        }
    }
}

/// The command of a key press in a mode (`handle_key` without the effect).
pub fn key_command(mode: Mode, key: Key) -> (c: Command)
    ensures
        c == command_for(mode, key),
{
    match mode {
        Mode::Normal => normal_key(key),
        Mode::UrlInput => match key.code {
            KeyCode::Enter => Command::SubmitUrl,
            KeyCode::Esc => Command::Leave,
            KeyCode::Char(c) => Command::TypeUrl(c),
            KeyCode::Backspace => Command::EraseUrl,
            KeyCode::Tab => Command::UrlNextTab,
            _ => Command::Nothing,
        },
        Mode::Search => match key.code {
            KeyCode::Enter => Command::SubmitSearch,
            KeyCode::Esc => Command::CancelSearch,
            KeyCode::Char(c) => Command::TypeSearch(c),
            KeyCode::Backspace => Command::EraseSearch,
            _ => Command::Nothing,
        },
        Mode::Bookmarks => match key.code {
            KeyCode::Esc => Command::Leave,
            KeyCode::Char(c) => if is_nonzero_digit(c) {
                Command::OpenBookmark(digit_of(c) - 1)
            } else if c == 'd' {
                Command::DeleteLastBookmark
            } else {
                Command::Nothing
            },
            _ => Command::Nothing,
        },
        Mode::History => match key.code {
            KeyCode::Esc => Command::Leave,
            KeyCode::Char(c) => if is_nonzero_digit(c) {
                Command::OpenHistory(digit_of(c) - 1)
            } else if c == 'c' || c == 'C' {
                Command::ClearHistory
            } else {
                Command::Nothing
            },
            _ => Command::Nothing,
        },
        Mode::Settings => match key.code {
            KeyCode::Esc => Command::Leave,
            KeyCode::Char('a') => Command::ToggleAdblock,
            KeyCode::Char('p') => Command::TogglePrivacy,
            KeyCode::Char('h') => Command::EditHomepage,
            KeyCode::Char('s') => Command::NextEngine,
            _ => Command::Nothing,
        },
        Mode::Help => if key.code == KeyCode::Esc || key.code == KeyCode::Char('?') {
            Command::Leave
        } else {
            Command::Nothing
        },
    }
}

// ── Carrying commands out ──────────────────────────────────────────────────

/// The position of the current search engine among the built-in ones, or 0
/// when it is none of them.
pub open spec fn engine_position(url: Seq<char>, names: Seq<Seq<char>>, i: nat) -> nat
    decreases names.len() - i,
{
    if i >= names.len() {
        0
    } else if crate::search_engine::engine_url_of(names[i as int], crate::config::search_engine_table()) == Some(url) {
        i
    } else {
        engine_position(url, names, i + 1)
    }
}

/// The names of the built-in search engines.
pub open spec fn engine_name_list() -> Seq<Seq<char>> {
    crate::config::search_engine_table().map_values(|p: (Seq<char>, Seq<char>)| p.0)
}

/// The name of the search engine after the current one, going round.
pub open spec fn next_engine_name(url: Seq<char>) -> Seq<char> {
    let names = engine_name_list();
    names[((engine_position(url, names, 0) + 1) % names.len()) as int]
}

/// Only the mode changed.
pub open spec fn mode_set(a: App, b: App, m: Mode) -> bool {
    a == (App { mode: m, ..b })
}

/// The mode changed and the typed address is the given text.
pub open spec fn prompt_set(a: App, b: App, m: Mode, text: Seq<char>) -> bool {
    &&& a == (App { mode: m, url_input: a.url_input, ..b })
    &&& a.url_input@ == text
}

/// The active tab starts loading an address, and the request for it is
/// returned.
pub open spec fn loads(b: App, a: App, r: Option<FetchRequest>, url: Seq<char>) -> bool {
    &&& crate::app::navigated(b.current(), a.current(), url)
    &&& r matches Some(q) && crate::app::load_requested(a, q, b.active_tab, url)
}

/// Only the active tab's scroll position changed, to the given line.
pub open spec fn scrolled_to(b: App, a: App, line: int) -> bool {
    &&& a.others_kept(&b)
    &&& a == (App { tabs: a.tabs, ..b })
    &&& a.current() == (Tab { scroll: line as usize, ..b.current() })
    &&& a.current().scroll == line
}

/// What carrying out a command does.
pub open spec fn performed(b: App, a: App, r: Option<FetchRequest>, cmd: Command) -> bool {
    match cmd {
        Command::Nothing => a == b && r is None,
        Command::Quit => a == (App { should_quit: true, ..b }) && r is None,
        Command::NewTab => {
            &&& r is None
            &&& a.tabs@.len() == b.tabs@.len() + 1
            &&& a.tabs@.drop_last() == b.tabs@
            &&& crate::app::fresh_tab(a.tabs@.last(), "about:welcome"@)
            &&& a.active_tab == b.tabs@.len()
            &&& a.mode == Mode::UrlInput
            &&& a.url_input@.len() == 0
            &&& a == (App { tabs: a.tabs, active_tab: a.active_tab, mode: a.mode, url_input: a.url_input, ..b })
        },
        Command::CloseTab => {
            &&& r is None
            &&& b.tabs@.len() <= 1 ==> a == (App { should_quit: true, ..b })
            &&& b.tabs@.len() > 1 ==> a.tabs@ == b.tabs@.remove(b.active_tab as int) && a.status_message@
                == crate::app::idle_status() && a.active_tab == if b.active_tab < a.tabs@.len() {
                b.active_tab
            } else {
                (a.tabs@.len() - 1) as usize
            } && a == (App { tabs: a.tabs, active_tab: a.active_tab, status_message: a.status_message, ..b })
        },
        Command::NextTab => {
            &&& r is None
            &&& a == (App { active_tab: a.active_tab, status_message: a.status_message, ..b })
            &&& b.active_tab + 1 < b.tabs@.len() ==> a.active_tab == b.active_tab + 1 && a.status_message@
                == crate::app::idle_status()
            &&& b.active_tab + 1 >= b.tabs@.len() ==> a == b
        },
        Command::PrevTab => {
            &&& r is None
            &&& a == (App { active_tab: a.active_tab, status_message: a.status_message, ..b })
            &&& b.active_tab > 0 ==> a.active_tab == b.active_tab - 1 && a.status_message@ == crate::app::idle_status()
            &&& b.active_tab == 0 ==> a == b
        },
        Command::OpenUrl => r is None && prompt_set(
            a,
            b,
            Mode::UrlInput,
            if b.current().url@ == "about:welcome"@ {
                seq![]
            } else {
                b.current().url@
            },
        ),
        Command::LoadCurrent => if b.current().url@ == "about:welcome"@ {
            a == b && r is None
        } else {
            let url = crate::search_engine::built_url(b.current().url@, b.config.search_engine@);
            &&& a.others_kept(&b)
            &&& a == (App { tabs: a.tabs, status_message: a.status_message, ..b })
            &&& loads(b, a, r, url)
        },
        Command::Back => {
            &&& a.others_kept(&b)
            &&& a == (App { tabs: a.tabs, status_message: a.status_message, ..b })
            &&& b.current().back_stack@.len() > 0 ==> {
                &&& crate::app::went_back(b.current(), a.current())
                &&& r matches Some(q) && q.url@ == a.current().url@ && q.tab_idx == b.active_tab
                    && !q.headless && !q.errors_as_blocked
                &&& a.status_message == b.status_message
            }
            &&& b.current().back_stack@.len() == 0 ==> a.tabs == b.tabs && r is None && a.status_message@
                == "No back history"@
        },
        Command::Forward => {
            &&& a.others_kept(&b)
            &&& a == (App { tabs: a.tabs, status_message: a.status_message, ..b })
            &&& b.current().forward_stack@.len() > 0 ==> {
                &&& crate::app::went_forward(b.current(), a.current())
                &&& r matches Some(q) && q.url@ == a.current().url@ && q.tab_idx == b.active_tab
                    && !q.headless && !q.errors_as_blocked
                &&& a.status_message == b.status_message
            }
            &&& b.current().forward_stack@.len() == 0 ==> a.tabs == b.tabs && r is None && a.status_message@
                == "No forward history"@
        },
        Command::Reload => {
            let url = crate::search_engine::built_url(b.current().url@, b.config.search_engine@);
            &&& a.others_kept(&b)
            &&& a == (App { tabs: a.tabs, status_message: a.status_message, ..b })
            &&& crate::app::loadable(b.current().url@) ==> loads(b, a, r, url)
            &&& !crate::app::loadable(b.current().url@) ==> a.tabs == b.tabs && r is None
                && a.status_message == b.status_message
        },
        Command::EditUrl => r is None && prompt_set(a, b, Mode::UrlInput, b.current().url@),
        Command::ScrollDown(n) => r is None && scrolled_to(
            b,
            a,
            if b.current().scroll + n <= b.current().scroll_max {
                b.current().scroll + n
            } else {
                b.current().scroll_max as int
            },
        ),
        Command::ScrollUp(n) => r is None && scrolled_to(
            b,
            a,
            if b.current().scroll >= n {
                b.current().scroll - n
            } else {
                0
            },
        ),
        Command::Top => r is None && scrolled_to(b, a, 0),
        Command::Bottom => r is None && scrolled_to(b, a, b.current().scroll_max as int),
        Command::StartSearch => {
            &&& r is None
            &&& a == (App {
                mode: Mode::Search,
                search_query: a.search_query,
                search_results: a.search_results,
                search_idx: 0,
                ..b
            })
            &&& a.search_query@.len() == 0
            &&& a.search_results@.len() == 0
        },
        Command::NextMatch => {
            &&& r is None
            &&& b.search_results@.len() == 0 ==> a == b
            &&& b.search_results@.len() > 0 ==> {
                let i = crate::app::next_index(b.search_idx as nat, b.search_results@.len());
                &&& a.search_idx == i
                &&& scrolled_to(b, App { search_idx: b.search_idx, ..a }, b.search_results@[i as int].0 as int)
            }
        },
        Command::PrevMatch => {
            &&& r is None
            &&& b.search_results@.len() == 0 ==> a == b
            &&& b.search_results@.len() > 0 ==> {
                let i = crate::app::prev_index(b.search_idx as nat, b.search_results@.len());
                &&& a.search_idx == i
                &&& scrolled_to(b, App { search_idx: b.search_idx, ..a }, b.search_results@[i as int].0 as int)
            }
        },
        Command::ShowBookmarks => r is None && mode_set(a, b, Mode::Bookmarks),
        Command::ShowHistory => r is None && mode_set(a, b, Mode::History),
        Command::ShowSettings => r is None && mode_set(a, b, Mode::Settings),
        Command::ShowHelp => r is None && mode_set(a, b, Mode::Help),
        Command::ToggleAdblock => {
            &&& r is None
            &&& a == (App { config: a.config, storage: a.storage, status_message: a.status_message, ..b })
            &&& a.config == (crate::config::Config { adblock_enabled: !b.config.adblock_enabled, ..b.config })
            &&& a.storage.cfg() == crate::storage::changed_config(
                b.storage.cfg(),
                crate::storage::ConfigChange::Adblock(!b.config.adblock_enabled),
            )
            &&& a.storage.bookmark_list() == b.storage.bookmark_list()
            &&& a.storage.history_list() == b.storage.history_list()
            &&& a.status_message@ == "Ad blocker: "@ + crate::app::on_off(a.config.adblock_enabled)
        },
        Command::TogglePrivacy => {
            &&& r is None
            &&& a == (App { config: a.config, storage: a.storage, status_message: a.status_message, ..b })
            &&& a.config == (crate::config::Config { privacy_mode: !b.config.privacy_mode, ..b.config })
            &&& a.storage.cfg() == crate::storage::changed_config(
                b.storage.cfg(),
                crate::storage::ConfigChange::Privacy(!b.config.privacy_mode),
            )
            &&& a.storage.bookmark_list() == b.storage.bookmark_list()
            &&& a.storage.history_list() == b.storage.history_list()
            &&& a.status_message@ == "Privacy mode: "@ + crate::app::on_off(a.config.privacy_mode)
        },
        Command::OpenLink(n) => a.others_kept(&b) && a == (App { tabs: a.tabs, status_message: a.status_message, ..b })
            && match crate::app::rendered_view(b.current().rendered) {
            Some(p) => if 0 < n <= p.3.len() {
                loads(b, a, r, crate::search_engine::built_url(p.3[n - 1].0, b.config.search_engine@))
            } else {
                a.tabs == b.tabs && r is None && a.status_message == b.status_message
            },
            None => a.tabs == b.tabs && r is None && a.status_message == b.status_message,
        },
        Command::Leave => r is None && a == (App { mode: Mode::Normal, status_message: a.status_message, ..b })
            && a.status_message@ == crate::app::idle_status(),
        Command::SubmitUrl => {
            let url = crate::text::trim(b.url_input@);
            &&& a.mode == Mode::Normal
            &&& url.len() == 0 ==> a == (App { mode: Mode::Normal, ..b }) && r is None
            &&& url.len() > 0 ==> a.others_kept(&b) && a == (App {
                tabs: a.tabs,
                status_message: a.status_message,
                mode: Mode::Normal,
                ..b
            }) && loads(
                b,
                a,
                r,
                crate::search_engine::built_url(url, b.config.search_engine@),
            )
        },
        Command::TypeUrl(c) => r is None && a == (App { url_input: a.url_input, ..b }) && a.url_input@
            == b.url_input@.push(c),
        Command::EraseUrl => r is None && a == (App { url_input: a.url_input, ..b }) && a.url_input@ == if b.url_input@.len()
            > 0 {
            b.url_input@.drop_last()
        } else {
            b.url_input@
        },
        Command::UrlNextTab => {
            &&& r is None
            &&& a == (App {
                active_tab: a.active_tab,
                status_message: a.status_message,
                mode: Mode::UrlInput,
                url_input: a.url_input,
                ..b
            })
            &&& b.active_tab + 1 < b.tabs@.len() ==> a.active_tab == b.active_tab + 1 && a.status_message@
                == crate::app::idle_status()
            &&& b.active_tab + 1 >= b.tabs@.len() ==> a.active_tab == b.active_tab && a.status_message
                == b.status_message
            &&& a.url_input@ == a.current().url@
        },
        Command::SubmitSearch => {
            &&& r is None
            &&& a.mode == Mode::Normal
            &&& a.others_kept(&b)
            &&& a == (App {
                tabs: a.tabs,
                search_results: a.search_results,
                search_idx: a.search_idx,
                status_message: a.status_message,
                mode: Mode::Normal,
                ..b
            })
            &&& crate::app::hits_view(a.search_results@) == crate::app::search_hits(
                crate::app::display_view(b.current().display_lines@),
                b.search_query@,
            )
            &&& a.search_idx == 0
        },
        Command::CancelSearch => {
            &&& r is None
            &&& a == (App {
                mode: Mode::Normal,
                search_query: a.search_query,
                search_results: a.search_results,
                status_message: a.status_message,
                ..b
            })
            &&& a.search_query@.len() == 0
            &&& a.search_results@.len() == 0
            &&& a.status_message@ == crate::app::idle_status()
        },
        Command::TypeSearch(c) => r is None && a == (App { search_query: a.search_query, ..b }) && a.search_query@
            == b.search_query@.push(c),
        Command::EraseSearch => r is None && a == (App { search_query: a.search_query, ..b }) && a.search_query@
            == if b.search_query@.len() > 0 {
            b.search_query@.drop_last()
        } else {
            b.search_query@
        },
        Command::OpenBookmark(i) => {
            &&& a.mode == Mode::Normal
            &&& a.others_kept(&b)
            &&& a == (App { tabs: a.tabs, status_message: a.status_message, mode: Mode::Normal, ..b })
            &&& i < b.storage.bookmark_list().len() ==> loads(
                b,
                a,
                r,
                crate::search_engine::built_url(b.storage.bookmark_list()[i as int].1, b.config.search_engine@),
            )
            &&& i >= b.storage.bookmark_list().len() ==> a.tabs == b.tabs && r is None
                && a.status_message == b.status_message
        },
        Command::DeleteLastBookmark => {
            &&& r is None
            &&& a == (App { storage: a.storage, status_message: a.status_message, ..b })
            &&& a.storage.cfg() == b.storage.cfg()
            &&& a.storage.history_list() == b.storage.history_list()
            &&& b.storage.bookmark_list().len() == 0 ==> a == b
            &&& b.storage.bookmark_list().len() > 0 ==> a.storage.bookmark_list()
                == crate::storage::bookmarks_after_remove(
                b.storage.bookmark_list(),
                b.storage.bookmark_list().last().1,
            ) && a.status_message@ == "Last bookmark removed."@
        },
        Command::OpenHistory(i) => {
            let hist = crate::storage::newest(b.storage.history_list(), 100);
            &&& a.mode == Mode::Normal
            &&& a.others_kept(&b)
            &&& a == (App { tabs: a.tabs, status_message: a.status_message, mode: Mode::Normal, ..b })
            &&& i < hist.len() ==> loads(
                b,
                a,
                r,
                crate::search_engine::built_url(hist[i as int].1, b.config.search_engine@),
            )
            &&& i >= hist.len() ==> a.tabs == b.tabs && r is None && a.status_message == b.status_message
        },
        Command::ClearHistory => {
            &&& r is None
            &&& a == (App { storage: a.storage, status_message: a.status_message, mode: Mode::Normal, ..b })
            &&& a.storage.cfg() == b.storage.cfg()
            &&& a.storage.history_list().len() == 0
            &&& a.storage.bookmark_list() == b.storage.bookmark_list()
            &&& a.status_message@ == "History cleared."@
        },
        Command::EditHomepage => {
            &&& r is None
            &&& a == (App { mode: Mode::UrlInput, url_input: a.url_input, status_message: a.status_message, ..b })
            &&& a.url_input@ == b.config.homepage@
            &&& a.status_message@ == "Enter new homepage URL and press Enter."@
        },
        Command::NextEngine => {
            &&& r is None
            &&& a == (App { config: a.config, storage: a.storage, status_message: a.status_message, ..b })
            &&& a.config.search_engine@ == crate::search_engine::engine_url_of(
                next_engine_name(b.config.search_engine@),
                crate::config::search_engine_table(),
            ).unwrap()
            &&& a.config == (crate::config::Config { search_engine: a.config.search_engine, ..b.config })
            &&& a.storage.cfg() == crate::storage::changed_config(
                b.storage.cfg(),
                crate::storage::ConfigChange::SearchEngine(a.config.search_engine),
            )
            &&& a.storage.bookmark_list() == b.storage.bookmark_list()
            &&& a.storage.history_list() == b.storage.history_list()
            &&& a.status_message@ == "Search engine set to "@ + next_engine_name(b.config.search_engine@)
        },
    }
}

impl App {
    /// Carries out a command. The program is to perform the returned
    /// request, if any.
    pub fn perform(&mut self, cmd: Command) -> (r: Option<FetchRequest>)
        requires
            old(self).wf(),
        ensures
            final(self).wf(),
            performed(*old(self), *final(self), r, cmd),
    {
        match cmd {
            Command::Nothing => None,
            Command::Quit => {
                self.should_quit = true;
                None
            },
            Command::NewTab => {
                let r = self.add_tab(crate::text::string_of(crate::text::chars_of("about:welcome").as_slice()));
                self.mode = Mode::UrlInput;
                self.url_input = String::new();
                assert(self.tabs@.drop_last() =~= old(self).tabs@);
                r
            },
            Command::CloseTab => {
                self.close_tab();
                None
            },
            Command::NextTab => {
                self.next_tab();
                None
            },
            Command::PrevTab => {
                self.prev_tab();
                None
            },
            Command::OpenUrl => {
                let url = self.tabs[self.active_tab].url.clone();
                let c = crate::text::chars_of(url.as_str());
                let w = crate::text::chars_of("about:welcome");
                self.mode = Mode::UrlInput;
                if crate::text::chars_equal(c.as_slice(), w.as_slice()) {
                    self.url_input = String::new();
                } else {
                    self.url_input = url;
                }
                None
            },
            Command::LoadCurrent => {
                let url = self.tabs[self.active_tab].url.clone();
                let c = crate::text::chars_of(url.as_str());
                let w = crate::text::chars_of("about:welcome");
                if crate::text::chars_equal(c.as_slice(), w.as_slice()) {
                    None
                } else {
                    Some(self.navigate(url))
                }
            },
            Command::Back => self.go_back(),
            Command::Forward => self.go_forward(),
            Command::Reload => self.reload(),
            Command::EditUrl => {
                self.mode = Mode::UrlInput;
                self.url_input = self.tabs[self.active_tab].url.clone();
                None
            },
            Command::ScrollDown(n) => {
                self.scroll_down(n);
                None
            },
            Command::ScrollUp(n) => {
                self.scroll_up(n);
                None
            },
            Command::Top => {
                self.scroll_to_top();
                None
            },
            Command::Bottom => {
                self.scroll_to_bottom();
                None
            },
            Command::StartSearch => {
                self.mode = Mode::Search;
                self.search_query = String::new();
                self.search_results = Vec::new();
                self.search_idx = 0;
                None
            },
            Command::NextMatch => {
                self.next_search();
                None
            },
            Command::PrevMatch => {
                self.prev_search();
                None
            },
            Command::ShowBookmarks => {
                self.mode = Mode::Bookmarks;
                None
            },
            Command::ShowHistory => {
                self.mode = Mode::History;
                None
            },
            Command::ShowSettings => {
                self.mode = Mode::Settings;
                None
            },
            Command::ShowHelp => {
                self.mode = Mode::Help;
                None
            },
            Command::ToggleAdblock => {
                self.toggle_adblock();
                None
            },
            Command::TogglePrivacy => {
                self.toggle_privacy_mode();
                None
            },
            Command::OpenLink(n) => self.open_link_by_number(n),
            Command::Leave => {
                self.mode = Mode::Normal;
                self.update_status("");
                proof {
                    reveal_strlit("");
                }
                None
            },
            Command::SubmitUrl => {
                let t = crate::text::trim_str(self.url_input.as_str());
                let r = if t.len() > 0 {
                    Some(self.navigate(crate::text::string_of(t.as_slice())))
                } else {
                    None
                };
                self.mode = Mode::Normal;
                r
            },
            Command::TypeUrl(c) => {
                crate::text::push_char(&mut self.url_input, c);
                None
            },
            Command::EraseUrl => {
                self.url_input = erase_last(&self.url_input);
                None
            },
            Command::UrlNextTab => {
                self.next_tab();
                self.mode = Mode::UrlInput;
                self.url_input = self.tabs[self.active_tab].url.clone();
                None
            },
            Command::SubmitSearch => {
                self.run_search();
                self.mode = Mode::Normal;
                None
            },
            Command::CancelSearch => {
                self.mode = Mode::Normal;
                self.search_query = String::new();
                self.search_results = Vec::new();
                self.update_status("");
                proof {
                    reveal_strlit("");
                }
                None
            },
            Command::TypeSearch(c) => {
                crate::text::push_char(&mut self.search_query, c);
                None
            },
            Command::EraseSearch => {
                self.search_query = erase_last(&self.search_query);
                None
            },
            Command::OpenBookmark(i) => {
                let r = self.open_bookmark(i);
                self.mode = Mode::Normal;
                r
            },
            Command::DeleteLastBookmark => {
                let bms = self.storage.bookmarks();
                if bms.len() > 0 {
                    let last = bms.len() - 1;
                    assert(crate::storage::bookmark_views(bms@)[last as int] == bms@[last as int]@);
                    self.storage.remove_bookmark(bms[last].url.as_str());
                    self.status_message = crate::text::string_of(crate::text::chars_of("Last bookmark removed.").as_slice());
                }
                None
            },
            Command::OpenHistory(i) => {
                let r = self.open_history_entry(i);
                self.mode = Mode::Normal;
                r
            },
            Command::ClearHistory => {
                self.storage.clear_history();
                self.status_message = crate::text::string_of(crate::text::chars_of("History cleared.").as_slice());
                self.mode = Mode::Normal;
                None
            },
            Command::EditHomepage => {
                self.mode = Mode::UrlInput;
                self.url_input = self.config.homepage.clone();
                self.status_message = crate::text::string_of(
                    crate::text::chars_of("Enter new homepage URL and press Enter.").as_slice(),
                );
                None
            },
            Command::NextEngine => {
                self.next_engine();
                None
            },
        }
    }

    /// Moves to the next built-in search engine, going round; from an engine
    /// that is none of them, to the second.
    fn next_engine(&mut self)
        requires
            old(self).wf(),
        ensures
            final(self).wf(),
            *final(self) == (App {
                config: final(self).config,
                storage: final(self).storage,
                status_message: final(self).status_message,
                ..*old(self)
            }),
            final(self).config.search_engine@ == crate::search_engine::engine_url_of(
                next_engine_name(old(self).config.search_engine@),
                crate::config::search_engine_table(),
            ).unwrap(),
            final(self).config == (crate::config::Config { search_engine: final(self).config.search_engine, ..old(self).config }),
            final(self).storage.cfg() == crate::storage::changed_config(
                old(self).storage.cfg(),
                crate::storage::ConfigChange::SearchEngine(final(self).config.search_engine),
            ),
            final(self).storage.bookmark_list() == old(self).storage.bookmark_list(),
            final(self).storage.history_list() == old(self).storage.history_list(),
            final(self).status_message@ == "Search engine set to "@ + next_engine_name(old(self).config.search_engine@),
    {
        let names = crate::search_engine::engine_names();
        let ghost nv = engine_name_list();
        assert(names@.map_values(|n: &str| n@) =~= nv);
        let cur = self.config.search_engine.clone();
        let cc = crate::text::chars_of(cur.as_str());
        let mut i: usize = 0;
        let mut pos: usize = 0;
        let mut found = false;
        while i < names.len()
            invariant
                i <= names@.len() == nv.len() == 6,
                nv == engine_name_list(),
                names@.map_values(|n: &str| n@) == nv,
                cc@ == self.config.search_engine@,
                !found ==> engine_position(cc@, nv, 0) == engine_position(cc@, nv, i as nat),
                found ==> engine_position(cc@, nv, 0) == pos && i == 6,
                !found ==> pos == 0,
                pos < 6,
            decreases names.len() - i,
        {
            assert(nv[i as int] == names@[i as int]@);
            match crate::search_engine::engine_url(names[i]) {
                Some(u) => {
                    let uc = crate::text::chars_of(u);
                    if crate::text::chars_equal(uc.as_slice(), cc.as_slice()) {
                        pos = i;
                        found = true;
                        i = names.len();
                    } else {
                        i += 1;
                    }
                },
                None => {
                    i += 1;
                },
            }
        }
        if !found {
            assert(engine_position(cc@, nv, 6) == 0);
        }
        assert(engine_position(cc@, nv, 0) == pos);
        let next = (pos + 1) % names.len();
        assert(next == (engine_position(cc@, nv, 0) + 1) % 6);
        assert(names@[next as int]@ == nv[next as int]);
        self.set_search_engine(names[next]);
        proof {
            lemma_engine_names_known(next as int);
        }
    }
}

/// Every built-in engine's name leads to an engine.
proof fn lemma_engine_names_known(i: int)
    requires
        0 <= i < 6,
    ensures
        crate::search_engine::engine_url_of(engine_name_list()[i], crate::config::search_engine_table()) is Some,
{
    reveal_with_fuel(crate::search_engine::engine_url_of, 7);
    assert(engine_name_list()[i] == crate::config::search_engine_table()[i].0);
}

/// The text without its last character.
fn erase_last(s: &String) -> (r: String)
    ensures
        r@ == if s@.len() > 0 {
            s@.drop_last()
        } else {
            s@
        },
{
    let c = crate::text::chars_of(s.as_str());
    if c.len() == 0 {
        return crate::text::string_of(c.as_slice());
    }
    let n = c.len() - 1;
    let mut v: Vec<char> = Vec::new();
    let mut i: usize = 0;
    while i < n
        invariant
            i <= n < c@.len(),
            v@ == c@.take(i as int),
        decreases n - i,
    {
        v.push(c[i]);
        i += 1;
        assert(v@ =~= c@.take(i as int));
    }
    assert(c@.take(n as int) =~= c@.drop_last());
    crate::text::string_of(v.as_slice())
}

/// Handles a key press in the current mode. The program is to
/// perform the returned request, if any.
pub fn handle_key(app: &mut App, key: Key) -> (r: Option<FetchRequest>)
    requires
        old(app).wf(),
    ensures
        final(app).wf(),
        performed(*old(app), *final(app), r, command_for(old(app).mode, key)),
{
    let cmd = key_command(app.mode, key);
    app.perform(cmd)
}

} // verus!
