use tuba::adblock::AdBlocker;
use tuba::app::{is_js_heavy_site, load_result, App, FetchRequest, LoadResult, Mode, Tab};
use tuba::browser::{plan_fetch, uses_proxy, FetchPlan, FetchResult};
use tuba::config::Config;
use tuba::display::{article_layout, format_count, word_wrap, Ink};
use tuba::keys::{handle_key, key_command, Command, Key, KeyCode};
use tuba::purify::{detect_blocked_page, extract_content, fallback_extract, trim_boilerplate, Article, ExtractError};
use tuba::renderer::{render_error, render_html, resolve_url, strip_non_content, Style};
use tuba::search_engine::{build_url, engine_names, engine_url, urlencoding};
use tuba::storage::Storage;
use tuba::ui::{
    address_text, classify_line, classify_message, engine_display_name, match_pieces, tab_label, truncate,
    LineKind, MessageKind,
};

const NOW: &str = "2024-05-01 12:00:00";

fn new_app() -> App {
    App::new(Config::default(), Storage::new())
}

fn page_texts(html: &str) -> Vec<String> {
    render_html(html, "https://example.com").lines.iter().map(|l| l.text()).collect()
}

fn key(c: char) -> Key {
    Key { code: KeyCode::Char(c), ctrl: false }
}

fn ctrl(c: char) -> Key {
    Key { code: KeyCode::Char(c), ctrl: true }
}

// ── Ad blocker and fetching ────────────────────────────────────────────────

#[test]
fn adblock_ignores_case_of_address() {
    let ab = AdBlocker::new();
    assert!(ab.is_blocked("HTTPS://DOUBLECLICK.NET/ads"));
    assert!(ab.is_blocked("https://example.com/page?UTM_SOURCE=x"));
    assert!(!ab.is_blocked("https://example.com/page"));
}

#[test]
fn fetch_plan_follows_blocker_and_headless_flag() {
    let ab = AdBlocker::new();
    assert_eq!(plan_fetch(&ab, true, "https://doubleclick.net/x", false), FetchPlan::Blocked);
    assert_eq!(plan_fetch(&ab, false, "https://doubleclick.net/x", false), FetchPlan::Http);
    assert_eq!(plan_fetch(&ab, true, "https://example.com", true), FetchPlan::Headless);
    assert_eq!(plan_fetch(&ab, true, "https://example.com", false), FetchPlan::Http);
}

#[test]
fn proxy_needs_switch_and_address() {
    let mut cfg = Config::default();
    assert!(!uses_proxy(&cfg));
    cfg.proxy_enabled = true;
    assert!(!uses_proxy(&cfg));
    cfg.proxy_url = "socks5://127.0.0.1:1080".to_string();
    assert!(uses_proxy(&cfg));
}

#[test]
fn js_heavy_sites_are_recognised() {
    assert!(is_js_heavy_site("https://www.Reddit.com/r/rust"));
    assert!(is_js_heavy_site("https://t.me/channel"));
    assert!(!is_js_heavy_site("https://example.com"));
    assert!(is_js_heavy_site("HTTPS://X.COM/home"));
    assert!(is_js_heavy_site("https://chatgpt.com/"));
}

// ── Search engine ──────────────────────────────────────────────────────────

#[test]
fn build_url_encodes_exactly() {
    assert_eq!(build_url("foo & bar", "https://ddg.com/?q={}"), "https://ddg.com/?q=foo+%26+bar");
    assert_eq!(build_url("  rust-lang_x  ", "https://ddg.com/?q={}"), "https://ddg.com/?q=rust-lang_x");
    assert_eq!(urlencoding('é'), "%C3%A9");
    assert_eq!(urlencoding('&'), "%26");
    assert_eq!(engine_url("Bing"), Some("https://www.bing.com/search?q={}"));
    assert_eq!(engine_url("Nope"), None);
}

// ── Text layout ────────────────────────────────────────────────────────────

#[test]
fn word_wrap_exact_lines() {
    assert_eq!(word_wrap("the quick brown fox", 10), vec!["the quick", "brown fox"]);
    assert_eq!(word_wrap("abcdefghijklmnop", 10), vec!["abcdefghij", "klmnop"]);
    assert_eq!(word_wrap("   ", 20), vec!["   "]);
}

#[test]
fn count_formatting() {
    assert_eq!(format_count(0), "0");
    assert_eq!(format_count(999), "999");
    assert_eq!(format_count(1000), "1,000");
    assert_eq!(format_count(1234567), "1,234,567");
}

// ── Rendering ──────────────────────────────────────────────────────────────

#[test]
fn error_page_exact() {
    let page = render_error("boom", "https://x.org");
    assert_eq!(page.title, "Error - https://x.org");
    assert_eq!(page.url, "https://x.org");
    let texts: Vec<String> = page.lines.iter().map(|l| l.text()).collect();
    assert_eq!(texts.len(), 9);
    assert_eq!(texts[1], "  ⚠ Connection Error");
    assert_eq!(texts[3], "  boom");
    assert_eq!(texts[5], "  URL: https://x.org");
    assert!(page.lines[1].is_bold());
    assert!(page.links.is_empty());
}

#[test]
fn empty_body_falls_back_with_address_as_title() {
    let page = render_html("<html><body></body></html>", "https://example.com");
    assert_eq!(page.title, "https://example.com");
    let texts: Vec<String> = page.lines.iter().map(|l| l.text()).collect();
    assert_eq!(texts.len(), 6);
    assert_eq!(texts[1], "  https://example.com");
    assert_eq!(texts[3], "  ⚡ This page requires JavaScript to display its content.");
}

#[test]
fn headings_get_rules() {
    let texts = page_texts("<html><body><h1>Title</h1><h2>Subtitle</h2><h3>Small</h3></body></html>");
    assert_eq!(texts[1], "  Title");
    assert_eq!(texts[2], "  https://example.com");
    assert_eq!(texts[5], "Title");
    assert_eq!(texts[6], "─────");
    assert_eq!(texts[9], "Subtitle");
    assert_eq!(texts[10], "────────");
    assert_eq!(texts[13], "Small");
    assert_eq!(texts[14], "");
    assert_eq!(texts.len(), 15);
}

#[test]
fn table_cells_are_padded() {
    let texts = page_texts(
        "<html><body><table><tr><th>Name</th><th>Qty</th></tr><tr><td>Apple</td><td>3</td></tr></table></body></html>",
    );
    assert_eq!(texts[5], " Name   │  Qty ");
    assert_eq!(texts[6], " ─────  ┼  ─── ");
    assert_eq!(texts[7], " Apple  │  3   ");
}

#[test]
fn entities_are_decoded_in_paragraphs() {
    let texts = page_texts("<html><body><p>foo &amp; bar &lt; baz &gt; qux</p></body></html>");
    assert_eq!(texts[4], "foo & bar < baz > qux");
    assert_eq!(texts[5], "");
}

#[test]
fn code_blocks_are_numbered() {
    let texts = page_texts("<html><body><pre>x = 1\ny = 2</pre></body></html>");
    assert_eq!(texts[4], "    1 x = 1");
    assert_eq!(texts[5], "    2 y = 2");
}

#[test]
fn lists_quotes_and_images() {
    let texts = page_texts(
        "<html><body><ol><li>One</li><li>Two</li></ol><ul><li>A</li></ul><blockquote>Line one\n  Line two  </blockquote><img alt=\"Logo\" src=\"/logo.png\"></body></html>",
    );
    assert_eq!(texts[4], "  1.  One");
    assert_eq!(texts[5], "  2.  Two");
    assert_eq!(texts[6], "");
    assert_eq!(texts[7], "  •  A");
    assert_eq!(texts[9], "  ▎ Line one");
    assert_eq!(texts[10], "  ▎ Line two");
    assert_eq!(texts[12], "🖼  Logo (/logo.png)");
}

#[test]
fn style_elements_are_removed_before_parsing() {
    let texts = page_texts("<html><body><p>Hello <style>x</style>world</p></body></html>");
    assert_eq!(texts[4], "Hello world");
    let stripped = strip_non_content("a<script>b</script>c<meta charset=\"utf-8\">d<NAV id=1>e</nav>f");
    assert_eq!(stripped, "acdf");
}

#[test]
fn links_are_resolved_and_deduplicated() {
    let html = "<html><body><a href=\"/a#x\">A</a><a href=\"/a#x\">A</a><a href=\"#top\">Top</a><a href=\"javascript:void(0)\">J</a><a href=\" /b \"></a></body></html>";
    let page = render_html(html, "https://example.com/dir/page");
    assert_eq!(page.links.len(), 2);
    assert_eq!(page.links[0], ("https://example.com/a".to_string(), "A".to_string()));
    assert_eq!(page.links[1], ("https://example.com/b".to_string(), "/b".to_string()));
    assert_eq!(resolve_url("https://example.com/a/b", "c#frag"), "https://example.com/a/c");
    assert_eq!(resolve_url("not a url", "rel#x"), "rel#x");
}

#[test]
fn link_list_shows_at_most_thirty() {
    let mut html = String::from("<html><body>");
    for i in 0..35 {
        html.push_str(&format!("<a href=\"https://site{}.org/\">Site {}</a>", i, i));
    }
    html.push_str("</body></html>");
    let page = render_html(&html, "https://example.com");
    assert_eq!(page.links.len(), 35);
    assert_eq!(page.lines.len(), 4 + 35 + 4 + 30);
    let texts: Vec<String> = page.lines.iter().map(|l| l.text()).collect();
    assert_eq!(texts[41], "  Links on this page (35 total, showing first 30):");
    assert_eq!(texts[43], "  [ 1] Site 0  https://site0.org/");
    assert_eq!(page.lines[43].spans[0].style, Style::Dim);
}

#[test]
fn meta_tags_are_removed_before_the_title_is_read() {
    let html = "<html><head><meta property=\"og:title\" content=\"  OG Title \"><title>  Plain </title></head><body><p>x</p></body></html>";
    let page = render_html(html, "https://example.com");
    assert_eq!(page.title, "Plain");
}

// ── Reader mode ────────────────────────────────────────────────────────────

#[test]
fn blocked_signals_are_matched_in_any_case() {
    assert_eq!(detect_blocked_page("<script src=\"/api-engagement.js\">"), Some("API engagement platform"));
    assert_eq!(detect_blocked_page("<div class='_cf_chl_opt'>"), Some("Cloudflare challenge"));
    assert_eq!(detect_blocked_page("<title>Just a moment...</title>"), Some("Cloudflare challenge"));
    assert_eq!(detect_blocked_page("<title>JUST A MOMENT...</title>"), Some("Cloudflare challenge"));
    assert_eq!(detect_blocked_page("<body>Checking your browser</body>"), Some("anti-bot check"));
    assert_eq!(detect_blocked_page("Please verify you are a human"), Some("CAPTCHA challenge"));
    assert_eq!(detect_blocked_page("<script>DataDome</script>"), Some("DataDome anti-bot"));
    assert_eq!(detect_blocked_page("<p>hello</p>"), None);
}

#[test]
fn challenge_page_gives_no_article() {
    let html = "<html><title>Just a moment...</title><body>Checking your browser</body></html>";
    assert_eq!(detect_blocked_page(html), Some("Cloudflare challenge"));
    let r = extract_content(html, "https://example.com", &Config::default());
    assert!(matches!(r, Ok(None)));
}

#[test]
fn boilerplate_is_cut_around_the_main_text() {
    let text = "The council voted on Tuesday to keep the library open.\nResidents had campaigned for months.\n\nCookie settings";
    assert_eq!(
        trim_boilerplate(text, 50),
        "The council voted on Tuesday to keep the library open.\nResidents had campaigned for months."
    );
    assert_eq!(trim_boilerplate(text, 200), text);
    assert_eq!(trim_boilerplate("a\nb", 1), "a\nb");
    let nav = "nav\n\nHello world this is the main text\nMore main text here\n\nfooter";
    assert_eq!(trim_boilerplate(nav, 50), "");
}

#[test]
fn fallback_uses_text_blocks_then_whole_page() {
    let mut cfg = Config::default();
    cfg.min_extracted_length = 10;
    let html = "<html><head><title>T</title></head><body><p>First paragraph text</p><p>Second paragraph text</p><p>Third paragraph text</p></body></html>";
    let a = fallback_extract(html, "https://example.com", &cfg).ok().unwrap().unwrap();
    assert_eq!(a.title, "T");
    assert_eq!(a.text, "First paragraph text\nSecond paragraph text\nThird paragraph text");
    assert_eq!(a.url, "https://example.com");
    cfg.min_extracted_length = 1;
    let thin = fallback_extract("<html><body><p>Hi</p></body></html>", "https://example.com", &cfg)
        .ok()
        .unwrap()
        .unwrap();
    assert_eq!(thin.text, "Hi");
    assert_eq!(thin.title, "https://example.com");
    cfg.min_extracted_length = 1000;
    assert!(fallback_extract("<html><body><p>Hi</p></body></html>", "https://example.com", &cfg).ok().unwrap().is_none());
}

#[test]
fn extraction_errors() {
    let cfg = Config::default();
    assert_eq!(extract_content("<p>x</p>", "not a url", &cfg).err(), Some(ExtractError::InvalidUrl));
    assert_eq!(ExtractError::InvalidUrl.message(), "Invalid URL");
    let blocked = extract_content("<p>api-engagement</p>", "https://example.com", &cfg);
    assert!(blocked.ok().unwrap().is_none());
}

#[test]
fn readability_finds_the_article() {
    let html = "<html><head><title>Test Article</title><meta name=\"author\" content=\"Ann\"></head><body><article><p>This is a test article with enough content to meet the minimum length requirement for extraction.</p><p>More content here to make sure we have enough text to extract.</p></article></body></html>";
    let cfg = Config::default();
    let a = extract_content(html, "https://example.com/article", &cfg).ok().unwrap().unwrap();
    assert_eq!(a.title, "Test Article");
    assert_eq!(a.author, "Ann");
    assert!(a.text.contains("This is a test article"));
    assert_eq!(a.url, "https://example.com/article");
}

#[test]
fn article_layout_exact() {
    let none = article_layout(&None, 80, 88);
    assert_eq!(none.len(), 9);
    assert_eq!(none[1][0].0, "Could not extract any meaningful content from the page.");
    assert_eq!(none[1][0].1, Ink::Warning);
    let a = Article {
        title: "Hi".to_string(),
        author: "Ann".to_string(),
        date: String::new(),
        text: "one two\n\nthree".to_string(),
        url: "https://x.org".to_string(),
    };
    let lines = article_layout(&Some(a), 20, 88);
    let texts: Vec<String> = lines.iter().map(|l| l.iter().map(|p| p.0.clone()).collect::<String>()).collect();
    assert_eq!(texts[1], "  Hi");
    assert_eq!(texts[2], "  ──");
    assert_eq!(texts[4], "  ✍  Ann  │  🔗 https://x.org");
    assert_eq!(texts[6], "━".repeat(20));
    assert_eq!(texts[8], "  one two");
    assert_eq!(texts[9], "");
    assert_eq!(texts[10], "  three");
    assert_eq!(texts[13], "  14 chars  ·  3 words  ·  https://x.org");
    assert_eq!(texts.len(), 15);
}

// ── Browser state ──────────────────────────────────────────────────────────

#[test]
fn new_app_shows_welcome() {
    let app = new_app();
    assert_eq!(app.tabs.len(), 1);
    assert_eq!(app.tabs[0].url, "about:welcome");
    assert_eq!(app.tabs[0].display_lines.len(), 31);
    assert_eq!(app.tabs[0].scroll_max, 30);
    assert_eq!(app.status_message, "NORMAL  |  ? for help");
    assert_eq!(app.mode, Mode::Normal);
}

#[test]
fn back_then_forward_restores() {
    let mut app = new_app();
    let r = app.navigate("example.com".to_string());
    assert_eq!(r.url, "https://example.com");
    assert!(!r.headless);
    assert!(r.errors_as_blocked);
    assert!(app.tabs[0].back_stack.is_empty());
    assert_eq!(app.status_message, "⏳ Loading https://example.com...");
    app.navigate("https://b.org".to_string());
    assert_eq!(app.tabs[0].back_stack, vec!["https://example.com".to_string()]);
    let back = app.go_back().unwrap();
    assert_eq!(back.url, "https://example.com");
    assert!(!back.errors_as_blocked);
    assert_eq!(app.tabs[0].forward_stack, vec!["https://b.org".to_string()]);
    let fwd = app.go_forward().unwrap();
    assert_eq!(fwd.url, "https://b.org");
    assert_eq!(app.tabs[0].url, "https://b.org");
    assert_eq!(app.tabs[0].back_stack, vec!["https://example.com".to_string()]);
    assert!(app.tabs[0].forward_stack.is_empty());
    assert!(app.go_forward().is_none());
    assert_eq!(app.status_message, "No forward history");
}

#[test]
fn loaded_page_is_shown_and_recorded() {
    let mut app = new_app();
    app.navigate("https://b.org".to_string());
    let html = "<html><head><title>B</title></head><body><p>Hello</p></body></html>".to_string();
    let result = LoadResult {
        tab_idx: 0,
        url: "https://b.org".to_string(),
        result: Ok(FetchResult::Http { html, final_url: "https://b.org/".to_string(), status: 200, headers: vec![] }),
    };
    app.process_load_result(result, NOW);
    let tab = &app.tabs[0];
    assert_eq!(tab.title, "B");
    assert_eq!(tab.url, "https://b.org/");
    assert!(!tab.loading);
    assert_eq!(tab.display_lines[0], ("  B".to_string(), true));
    assert_eq!(tab.display_lines[1], ("  https://b.org/".to_string(), false));
    assert_eq!(tab.scroll_max, tab.display_lines.len() - 1);
    assert_eq!(app.status_message, "Loaded: B");
    let hist = app.storage.history(10);
    assert_eq!(hist.len(), 1);
    assert_eq!(hist[0].url, "https://b.org/");
    assert_eq!(hist[0].visited_at, NOW);
}

#[test]
fn stale_and_failed_loads() {
    let mut app = new_app();
    app.navigate("https://b.org".to_string());
    let stale = LoadResult { tab_idx: 0, url: "https://other.org".to_string(), result: Ok(FetchResult::Blocked) };
    app.process_load_result(stale, NOW);
    assert!(app.tabs[0].loading);
    let gone = LoadResult { tab_idx: 5, url: "https://b.org".to_string(), result: Ok(FetchResult::Blocked) };
    app.process_load_result(gone, NOW);
    assert!(app.tabs[0].loading);
    let blocked = LoadResult { tab_idx: 0, url: "https://b.org".to_string(), result: Ok(FetchResult::Blocked) };
    app.process_load_result(blocked, NOW);
    assert_eq!(app.tabs[0].title, "Error");
    assert_eq!(app.tabs[0].display_lines[0].0, "⚠  Blocked by ad blocker (Ctrl+E to disable)");
    assert_eq!(app.status_message, "Blocked by ad blocker.");
    let failed = LoadResult { tab_idx: 0, url: "https://b.org".to_string(), result: Err("boom".to_string()) };
    app.process_load_result(failed, NOW);
    assert_eq!(app.status_message, "Error: boom");
    assert_eq!(app.tabs[0].error, Some("boom".to_string()));
    assert!(app.storage.history(10).is_empty());
}

#[test]
fn privacy_mode_records_no_visit() {
    let mut app = new_app();
    app.toggle_privacy_mode();
    assert_eq!(app.status_message, "Privacy mode: ON");
    app.navigate("https://b.org".to_string());
    let result = LoadResult {
        tab_idx: 0,
        url: "https://b.org".to_string(),
        result: Ok(FetchResult::Http {
            html: "<p>x</p>".to_string(),
            final_url: "https://b.org".to_string(),
            status: 200,
            headers: vec![],
        }),
    };
    app.process_load_result(result, NOW);
    assert!(app.storage.history(10).is_empty());
}

#[test]
fn failures_map_to_the_request_kind() {
    let req = FetchRequest { tab_idx: 0, url: "https://a.org".to_string(), headless: false, errors_as_blocked: true };
    assert!(matches!(load_result(req, Err("x".to_string())).result, Ok(FetchResult::Blocked)));
    let req = FetchRequest { tab_idx: 1, url: "https://a.org".to_string(), headless: false, errors_as_blocked: false };
    let r = load_result(req, Err("x".to_string()));
    assert_eq!(r.tab_idx, 1);
    assert!(matches!(r.result, Err(ref e) if e == "x"));
}

#[test]
fn search_round_trip() {
    let mut app = new_app();
    app.search_query = "CTRL".to_string();
    app.run_search();
    let n = app.search_results.len();
    assert!(n >= 3);
    assert_eq!(app.status_message, format!("Found {} matches", n));
    assert_eq!(app.tabs[0].scroll, app.search_results[0].0);
    app.next_search();
    assert_eq!(app.search_idx, 1);
    app.prev_search();
    assert_eq!(app.search_idx, 0);
    app.prev_search();
    assert_eq!(app.search_idx, n - 1);
    app.next_search();
    assert_eq!(app.search_idx, 0);
    app.search_query = "zzzz".to_string();
    app.run_search();
    assert_eq!(app.status_message, "No matches found.");
}

#[test]
fn bookmarks_toggle_from_the_app() {
    let mut app = new_app();
    app.toggle_bookmark(NOW);
    assert_eq!(app.status_message, "No page to bookmark.");
    app.navigate("https://b.org".to_string());
    app.toggle_bookmark(NOW);
    assert_eq!(app.status_message, "★ Bookmark added!");
    assert!(app.storage.is_bookmarked("https://b.org"));
    app.toggle_bookmark(NOW);
    assert_eq!(app.status_message, "★ Bookmark removed.");
    assert!(app.storage.bookmarks().is_empty());
}

#[test]
fn settings_changes() {
    let mut app = new_app();
    app.set_search_engine("Google");
    assert_eq!(app.config.search_engine, "https://www.google.com/search?q={}");
    assert_eq!(app.storage.config().search_engine, "https://www.google.com/search?q={}");
    assert_eq!(app.status_message, "Search engine set to Google");
    app.set_search_engine("Nope");
    assert_eq!(app.config.search_engine, "https://www.google.com/search?q={}");
    app.toggle_adblock();
    assert_eq!(app.status_message, "Ad blocker: OFF");
    app.toggle_adblock();
    assert!(app.config.adblock_enabled);
    assert_eq!(app.status_message, "Ad blocker: ON");
    app.set_proxy("socks5://h:1");
    assert!(app.config.proxy_enabled);
    assert_eq!(app.status_message, "Proxy set to socks5://h:1");
    app.set_proxy("");
    assert!(!app.config.proxy_enabled);
    assert_eq!(app.status_message, "Proxy disabled.");
    app.set_homepage("https://home.org");
    assert_eq!(app.storage.config().homepage, "https://home.org");
}

#[test]
fn tabs_and_scrolling() {
    let mut app = new_app();
    app.scroll_down(100);
    assert_eq!(app.tabs[0].scroll, 30);
    app.scroll_up(5);
    assert_eq!(app.tabs[0].scroll, 25);
    app.scroll_to_top();
    assert_eq!(app.tabs[0].scroll, 0);
    assert!(app.add_tab("about:welcome".to_string()).is_none());
    assert_eq!(app.active_tab, 1);
    assert_eq!(app.tabs[1].title, "New Tab");
    let r = app.add_tab("rust.org".to_string()).unwrap();
    assert_eq!(r.url, "https://rust.org");
    assert_eq!(app.tabs[2].back_stack, vec!["rust.org".to_string()]);
    app.prev_tab();
    assert_eq!(app.active_tab, 1);
    app.close_tab();
    assert_eq!(app.tabs.len(), 2);
    assert_eq!(app.active_tab, 1);
    app.close_tab();
    app.close_tab();
    assert!(app.should_quit);
    assert_eq!(app.tabs.len(), 1);
}

#[test]
fn wrapping_keeps_scroll_on_screen() {
    let mut tab = Tab::new("https://a.org".to_string());
    tab.set_error("a very long message that certainly does not fit into the narrow width given here");
    tab.scroll = 2;
    tab.wrap_content(24);
    assert!(tab.display_lines.len() > 3);
    assert!(tab.display_lines.iter().all(|l| l.0.chars().count() <= 20));
    assert_eq!(tab.scroll_max, tab.display_lines.len() - 1);
    assert_eq!(tab.scroll, 2);
    let before = tab.display_lines.clone();
    tab.wrap_content(10);
    assert_eq!(tab.display_lines, before);
}

#[test]
fn keys_in_each_mode() {
    assert_eq!(key_command(Mode::Normal, key('q')), Command::Quit);
    assert_eq!(key_command(Mode::Normal, ctrl('d')), Command::ScrollDown(20));
    assert_eq!(key_command(Mode::Normal, ctrl('b')), Command::ShowBookmarks);
    assert_eq!(key_command(Mode::Normal, ctrl('B')), Command::ShowBookmarks);
    assert_eq!(key_command(Mode::Normal, key('b')), Command::Back);
    assert_eq!(key_command(Mode::Normal, key('7')), Command::OpenLink(7));
    assert_eq!(key_command(Mode::Normal, key('0')), Command::Nothing);
    assert_eq!(key_command(Mode::Bookmarks, key('3')), Command::OpenBookmark(2));
    assert_eq!(key_command(Mode::History, key('C')), Command::ClearHistory);
    assert_eq!(key_command(Mode::Help, key('?')), Command::Leave);
    assert_eq!(key_command(Mode::Settings, key('s')), Command::NextEngine);

    let mut app = new_app();
    assert!(handle_key(&mut app, ctrl('t')).is_none());
    assert_eq!(app.mode, Mode::UrlInput);
    assert_eq!(app.tabs.len(), 2);
    for c in "example.org".chars() {
        handle_key(&mut app, key(c));
    }
    handle_key(&mut app, Key { code: KeyCode::Backspace, ctrl: false });
    assert_eq!(app.url_input, "example.or");
    let r = handle_key(&mut app, Key { code: KeyCode::Enter, ctrl: false }).unwrap();
    assert_eq!(r.url, "https://example.or");
    assert_eq!(app.mode, Mode::Normal);
    handle_key(&mut app, ctrl('s'));
    assert_eq!(app.mode, Mode::Settings);
    handle_key(&mut app, key('s'));
    assert_eq!(app.config.search_engine, "https://www.google.com/search?q={}");
    handle_key(&mut app, Key { code: KeyCode::Esc, ctrl: false });
    assert_eq!(app.mode, Mode::Normal);
    assert_eq!(app.status_message, "NORMAL  |  ? for help");
    handle_key(&mut app, key('q'));
    assert!(app.should_quit);
}

// ── Screen texts ───────────────────────────────────────────────────────────

#[test]
fn widths_and_truncation() {
    assert_eq!(truncate("short", 18), "short");
    assert_eq!(truncate("abcdefghijklmnopqrstuvwxyz", 18), "abcdefghijklmnopq…");
    assert_eq!(truncate("日本語日本語日本語日本語", 18), "日本語日本語日本…");
}

#[test]
fn bars_and_classes() {
    let app = new_app();
    assert_eq!(tab_label(0, &app.tabs[0], true), " ▸ 1. Tuba");
    assert_eq!(address_text("https://example.com/very/long/path", 20), "…ery/long/path");
    assert_eq!(address_text("https://a.org", 20), "https://a.org");
    assert_eq!(classify_line("  [ 1] x", false), LineKind::LinkItem);
    assert_eq!(classify_line("⚠  bad", false), LineKind::Warning);
    assert_eq!(classify_line("plain", true), LineKind::Title);
    assert_eq!(classify_message("Error: boom"), MessageKind::Error);
    assert_eq!(classify_message("★ Bookmark added!"), MessageKind::Notice);
    assert_eq!(classify_message("Loaded: B"), MessageKind::Plain);
    assert_eq!(engine_display_name("https://www.google.com/search?q={}"), "Google");
    assert_eq!(engine_display_name("https://mine.org/?q={}"), "Custom");
}

#[test]
fn boilerplate_result_is_part_of_the_text() {
    let texts = [
        "The council voted on Tuesday to keep the library open.\nResidents had campaigned for months.\n\nCookie settings",
        "Home\nNews\n\n\n\n\nA long enough paragraph of real text lives here.\nAnd it goes on.\n\n\n\n\nFooter",
        "  padded main text that is long enough to count  \nsecond line\nthird line",
    ];
    for t in texts.iter() {
        for min in [0usize, 10, 50, 500] {
            let r = trim_boilerplate(t, min);
            assert!(t.contains(r.as_str()));
        }
    }
}

#[test]
fn history_is_capped_and_newest_first() {
    let mut s = Storage::new();
    let mut cfg = s.config();
    cfg.max_history = 2;
    s.save_config(&cfg);
    assert!(s.add_history("One", "https://one.org", "t1"));
    assert!(s.add_history("Two", "https://two.org", "t2"));
    assert!(s.add_history("Three", "https://three.org", "t3"));
    let all = s.all_history();
    assert_eq!(all.len(), 2);
    assert_eq!(all[0].url, "https://two.org");
    let newest = s.history(10);
    assert_eq!(newest[0].url, "https://three.org");
    assert_eq!(newest[0].visited_at, "t3");
}

#[test]
fn bookmarks_are_kept_once_per_address() {
    let mut s = Storage::new();
    assert!(s.add_bookmark("A", "https://a.org", "t1"));
    assert!(!s.add_bookmark("A again", "https://a.org", "t2"));
    assert_eq!(s.bookmarks().len(), 1);
    assert_eq!(s.bookmarks()[0].title, "A");
}

#[test]
fn active_tab_can_be_changed_in_place() {
    let mut app = new_app();
    app.active_tab_mut().title = "Changed".to_string();
    assert_eq!(app.active_tab().title, "Changed");
    assert_eq!(app.tabs[0].title, "Changed");
}

#[test]
fn reader_layout_wraps_long_lines() {
    let a = Article {
        title: String::new(),
        author: String::new(),
        date: String::new(),
        text: "alpha beta gamma delta epsilon zeta eta theta".to_string(),
        url: String::new(),
    };
    let lines = article_layout(&Some(a), 24, 88);
    let texts: Vec<String> = lines.iter().map(|l| l.iter().map(|p| p.0.clone()).collect::<String>()).collect();
    assert_eq!(texts[0], "━".repeat(24));
    assert_eq!(texts[2], "  alpha beta gamma");
    assert_eq!(texts[3], "  delta epsilon zeta");
    assert_eq!(texts[4], "  eta theta");
    assert_eq!(texts[5], "");
}

#[test]
fn engines_include_startpage() {
    let names = engine_names();
    for n in ["DuckDuckGo", "Google", "Bing", "Startpage", "Brave"] {
        assert!(names.contains(&n));
        let u = engine_url(n).unwrap();
        assert_eq!(u.matches("{}").count(), 1);
    }
    assert_eq!(engine_url("Startpage"), Some("https://www.startpage.com/do/search?q={}"));
    assert_eq!(engine_url("Google"), Some("https://www.google.com/search?q={}"));
    assert_eq!(engine_url("google"), None);
    assert_eq!(engine_url(""), None);
}

#[test]
fn default_browser_path_is_chromium() {
    let c = Config::default();
    assert_eq!(c.chrome_path, Some("chromium".to_string()));
}

#[test]
fn ctrl_b_shows_bookmarks_without_going_back() {
    let mut app = new_app();
    app.navigate("https://example.com".to_string());
    app.navigate("https://example.org".to_string());
    let back_len = app.tabs[0].back_stack.len();
    assert!(handle_key(&mut app, ctrl('b')).is_none());
    assert_eq!(app.mode, Mode::Bookmarks);
    assert_eq!(app.tabs[0].url, "https://example.org");
    assert_eq!(app.tabs[0].back_stack.len(), back_len);
}

#[test]
fn scrolling_changes_only_the_scroll_position() {
    let mut app = new_app();
    app.tabs[0].scroll_max = 50;
    let status = app.status_message.clone();
    handle_key(&mut app, key('j'));
    assert_eq!(app.tabs[0].scroll, 1);
    handle_key(&mut app, Key { code: KeyCode::PageDown, ctrl: false });
    assert_eq!(app.tabs[0].scroll, 41);
    handle_key(&mut app, ctrl('d'));
    assert_eq!(app.tabs[0].scroll, 50);
    handle_key(&mut app, ctrl('u'));
    assert_eq!(app.tabs[0].scroll, 30);
    handle_key(&mut app, key('g'));
    assert_eq!(app.tabs[0].scroll, 0);
    handle_key(&mut app, key('G'));
    assert_eq!(app.tabs[0].scroll, 50);
    assert!(!app.should_quit);
    assert_eq!(app.mode, Mode::Normal);
    assert_eq!(app.status_message, status);
    assert_eq!(app.tabs[0].url, "about:welcome");
}

#[test]
fn wrapping_keeps_words_in_order() {
    let text = "  the quick\tbrown fox jumps over\nthe lazy dog  ";
    let lines = word_wrap(text, 12);
    assert!(lines.iter().all(|l| l.chars().count() <= 12));
    let words: Vec<&str> = text.split_whitespace().collect();
    assert_eq!(lines.join(" "), words.join(" "));
}

#[test]
fn search_matches_are_cut_out_of_the_line() {
    assert_eq!(
        match_pieces("Rust and rust", "RUST"),
        vec![(0, 4, true), (4, 9, false), (9, 13, true)]
    );
    assert_eq!(match_pieces("aaa", "aa"), vec![(0, 2, true), (2, 3, false)]);
    assert_eq!(match_pieces("hello", "x"), vec![(0, 5, false)]);
    assert_eq!(match_pieces("hello", ""), vec![(0, 5, false)]);
    assert_eq!(match_pieces("", "x"), vec![]);
}
