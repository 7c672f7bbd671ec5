//! Browser settings and the built-in search engines.
//!
//! The two fractional settings are held in whole units: the delay after a page
//! has loaded in milliseconds, the zoom level in percent.
use vstd::prelude::*;

verus! {

/// The directory, under the user's configuration directory, that holds the files.
pub const CONFIG_DIR: &'static str = "tuba";

/// The settings file.
pub const CONFIG_FILE: &'static str = "settings.json";

/// The history file.
pub const HISTORY_FILE: &'static str = "history.json";

/// The bookmarks file.
pub const BOOKMARKS_FILE: &'static str = "bookmarks.json";

/// The version of the settings layout that this library reads and writes.
pub const SCHEMA_VERSION: u32 = 1;

/// The user agent sent with every request unless the settings say otherwise.
pub const DEFAULT_USER_AGENT: &'static str = "Mozilla/5.0 (X11; Linux x86_64) AppleWebKit/537.36 (KHTML, like Gecko) Chrome/126.0.0.0 Safari/537.36";

/// Browser settings.
pub struct Config {
    pub schema_version: u32,
    pub page_load_timeout_ms: u64,
    /// Extra wait after a page has loaded, for late scripts, in milliseconds.
    pub post_load_delay_ms: u64,
    pub navigation_wait_until: String,
    pub viewport_width: u32,
    pub viewport_height: u32,
    pub user_agent: String,
    pub min_extracted_length: usize,
    pub include_links: bool,
    pub include_tables: bool,
    pub include_formatting: bool,
    pub include_images: bool,
    pub homepage: String,
    /// The search URL, with `{}` where the query goes.
    pub search_engine: String,
    pub chrome_path: Option<String>,
    pub adblock_enabled: bool,
    pub proxy_enabled: bool,
    pub proxy_url: String,
    pub privacy_mode: bool,
    pub max_history: usize,
    pub max_bookmarks: usize,
    pub terminal_width: Option<usize>,
    pub body_text_width: usize,
    pub theme: String,
    /// The zoom level, in percent.
    pub zoom_percent: u32,
}

/// The view of an optional owned string.
pub open spec fn opt_view(o: Option<String>) -> Option<Seq<char>> {
    match o {
        Some(s) => Some(s@),
        None => None,
    }
}

/// A copy of an optional owned string.
pub fn clone_opt_string(o: &Option<String>) -> (r: Option<String>)
    ensures
        opt_view(r) == opt_view(*o),
{
    match o {
        Some(s) => Some(s.clone()),
        None => None,
    }
}

impl Config {
    /// A field-by-field copy.
    pub fn duplicate(&self) -> (c: Config)
        ensures
            c.same_as(*self),
    {
        Config {
            schema_version: self.schema_version,
            page_load_timeout_ms: self.page_load_timeout_ms,
            post_load_delay_ms: self.post_load_delay_ms,
            navigation_wait_until: self.navigation_wait_until.clone(),
            viewport_width: self.viewport_width,
            viewport_height: self.viewport_height,
            user_agent: self.user_agent.clone(),
            min_extracted_length: self.min_extracted_length,
            include_links: self.include_links,
            include_tables: self.include_tables,
            include_formatting: self.include_formatting,
            include_images: self.include_images,
            homepage: self.homepage.clone(),
            search_engine: self.search_engine.clone(),
            chrome_path: clone_opt_string(&self.chrome_path),
            adblock_enabled: self.adblock_enabled,
            proxy_enabled: self.proxy_enabled,
            proxy_url: self.proxy_url.clone(),
            privacy_mode: self.privacy_mode,
            max_history: self.max_history,
            max_bookmarks: self.max_bookmarks,
            terminal_width: self.terminal_width,
            body_text_width: self.body_text_width,
            theme: self.theme.clone(),
            zoom_percent: self.zoom_percent,
        }
    }

    /// Two settings values agree in every field.
    pub open spec fn same_as(self, other: Config) -> bool {
        &&& self.schema_version == other.schema_version
        &&& self.page_load_timeout_ms == other.page_load_timeout_ms
        &&& self.post_load_delay_ms == other.post_load_delay_ms
        &&& self.navigation_wait_until@ == other.navigation_wait_until@
        &&& self.viewport_width == other.viewport_width
        &&& self.viewport_height == other.viewport_height
        &&& self.user_agent@ == other.user_agent@
        &&& self.min_extracted_length == other.min_extracted_length
        &&& self.include_links == other.include_links
        &&& self.include_tables == other.include_tables
        &&& self.include_formatting == other.include_formatting
        &&& self.include_images == other.include_images
        &&& self.homepage@ == other.homepage@
        &&& self.search_engine@ == other.search_engine@
        &&& opt_view(self.chrome_path) == opt_view(other.chrome_path)
        &&& self.adblock_enabled == other.adblock_enabled
        &&& self.proxy_enabled == other.proxy_enabled
        &&& self.proxy_url@ == other.proxy_url@
        &&& self.privacy_mode == other.privacy_mode
        &&& self.max_history == other.max_history
        &&& self.max_bookmarks == other.max_bookmarks
        &&& self.terminal_width == other.terminal_width
        &&& self.body_text_width == other.body_text_width
        &&& self.theme@ == other.theme@
        &&& self.zoom_percent == other.zoom_percent
    }

    /// The settings a fresh installation starts with.
    pub open spec fn is_default(self) -> bool {
        &&& self.schema_version == SCHEMA_VERSION
        &&& self.page_load_timeout_ms == 30_000
        &&& self.post_load_delay_ms == 2_000
        &&& self.navigation_wait_until@ == "load"@
        &&& self.viewport_width == 1440
        &&& self.viewport_height == 900
        &&& self.user_agent@ == DEFAULT_USER_AGENT@
        &&& self.min_extracted_length == 50
        &&& self.include_links
        &&& self.include_tables
        &&& self.include_formatting
        &&& !self.include_images
        &&& self.homepage@ == "https://duckduckgo.com"@
        &&& self.search_engine@ == "https://duckduckgo.com/?q={}"@
        &&& self.chrome_path matches Some(p) && p@ == "chromium"@
        &&& self.adblock_enabled
        &&& !self.proxy_enabled
        &&& self.proxy_url@ == Seq::<char>::empty()
        &&& !self.privacy_mode
        &&& self.max_history == 500
        &&& self.max_bookmarks == 200
        &&& self.terminal_width is None
        &&& self.body_text_width == 88
        &&& self.theme@ == "cyberpunk"@
        &&& self.zoom_percent == 100
    }
}

impl Default for Config {
    fn default() -> (c: Self)
        ensures
            c.is_default(),
    {
        Config {
            schema_version: SCHEMA_VERSION,
            page_load_timeout_ms: 30_000,
            post_load_delay_ms: 2_000,
            navigation_wait_until: String::from_str("load"),
            viewport_width: 1440,
            viewport_height: 900,
            user_agent: String::from_str(DEFAULT_USER_AGENT),
            min_extracted_length: 50,
            include_links: true,
            include_tables: true,
            include_formatting: true,
            include_images: false,
            homepage: String::from_str("https://duckduckgo.com"),
            search_engine: String::from_str("https://duckduckgo.com/?q={}"),
            chrome_path: Some(String::from_str("chromium")),
            adblock_enabled: true,
            proxy_enabled: false,
            proxy_url: String::new(),
            privacy_mode: false,
            max_history: 500,
            max_bookmarks: 200,
            terminal_width: None,
            body_text_width: 88,
            theme: String::from_str("cyberpunk"),
            zoom_percent: 100,
        }
    }
}

/// The built-in search engines: a display name and a search URL with `{}`
/// where the query goes.
pub open spec fn search_engine_table() -> Seq<(Seq<char>, Seq<char>)> {
    seq![
        ("DuckDuckGo"@, "https://duckduckgo.com/?q={}"@),
        ("Google"@, "https://www.google.com/search?q={}"@),
        ("Bing"@, "https://www.bing.com/search?q={}"@),
        ("Startpage"@, "https://www.startpage.com/do/search?q={}"@),
        ("Brave"@, "https://search.brave.com/search?q={}"@),
        ("SearXNG"@, "https://searx.be/search?q={}"@),
    ]
}

/// The views of a sequence of name and URL pairs.
pub open spec fn pair_views(v: Seq<(&str, &str)>) -> Seq<(Seq<char>, Seq<char>)> {
    v.map_values(|p: (&str, &str)| (p.0@, p.1@))
}

/// The built-in search engines, in order.
pub fn search_engines() -> (v: Vec<(&'static str, &'static str)>)
    ensures
        pair_views(v@) == search_engine_table(),
{
    let mut v: Vec<(&'static str, &'static str)> = Vec::new();
    v.push(("DuckDuckGo", "https://duckduckgo.com/?q={}"));
    v.push(("Google", "https://www.google.com/search?q={}"));
    v.push(("Bing", "https://www.bing.com/search?q={}"));
    v.push(("Startpage", "https://www.startpage.com/do/search?q={}"));
    v.push(("Brave", "https://search.brave.com/search?q={}"));
    v.push(("SearXNG", "https://searx.be/search?q={}"));
    assert(pair_views(v@) =~= search_engine_table());
    v
}

} // verus!
