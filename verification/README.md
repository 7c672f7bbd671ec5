# Tuba

Tuba is a terminal web browser: tabs with back and forward history, pages
drawn as styled text with their links numbered, in-page search, bookmarks,
history, an ad blocker, privacy mode and a reader mode that prints the
article of a page.

The browser's logic is a library verified with Verus; the program around it
(`app/`) reads the keyboard, fetches pages, draws the screen and keeps the
files.

## Layout

- `src/text.rs` — characters, trimming, substrings, splitting, UTF-8 lengths.
- `src/dom.rs` — the parsed document as a tree of plain values; simple CSS
  selectors over it.
- `src/renderer.rs` — a document drawn as styled lines: headings,
  paragraphs, lists, quotes, code, tables, images, the title and the list of
  links.
- `src/purify.rs` — reader mode: detection of challenge pages, extraction of
  the article, the boilerplate cut.
- `src/display.rs` — word wrapping, counts with thousands separators, the
  layout of a printed article.
- `src/search_engine.rs`, `src/adblock.rs`, `src/config.rs` — addresses and
  searches, the ad blocker, the settings.
- `src/storage.rs` — bookmarks, history and settings in memory.
- `src/app.rs`, `src/keys.rs`, `src/browser.rs` — tabs, navigation, loading,
  search, key bindings and the fetch decision.
- `src/ui.rs` — the texts of the screen: tab labels, address bar, line
  classes, status bar.
- `app/` — command line, terminal and event loop, HTTP and headless
  Chromium, the files on disk, drawing with ratatui, colour output.

Each public function states its result in its contract; the laws of the
library (what a sequence of operations gives) are the `law_` proof functions.
Outside crates (`scraper`, `url`, `regex`, `readability`, `html2text`,
`unicode-width`) are called through a few trusted functions whose contracts
name their results.
