//! Rendering a page for the terminal: the document tree becomes a list of
//! styled lines, with a title, the page address, the body and a numbered list
//! of the page's links.
use vstd::prelude::*;
use crate::dom::{
    attr_of, elements_of, kids_view, lemma_kids_view, node_attr, node_view, select, select_below,
    select_nodes, select_nodes_below, sel_views, text_of, text_of_node, tree_attr, tree_kids,
    tree_name, DomNode, Element, SelV, SimpleSel, Tree,
};
use crate::display::decimal;
use vstd::utf8::encode_utf8;
use crate::text::{
    char_views, chars_equal, chars_of, extend_chars, join, join_with, replace_all, replace_chars, starts_with,
    starts_with_chars, string_of, trim, trim_chars,
};

verus! {

/// How a piece of text is drawn. Each style stands for one colour and set of
/// modifiers of the terminal theme; only some are bold.
#[derive(Debug, PartialEq, Eq, Structural, Clone, Copy)]
pub enum Style {
    /// Page title: primary colour, bold.
    Title,
    /// Page address and descriptions: muted, italic.
    Meta,
    /// Link targets in the link list: muted.
    MetaPlain,
    /// Separator rules and table borders.
    Separator,
    /// Section headings: accent colour, bold.
    Section,
    /// Secondary text.
    Dim,
    /// Summaries of wide tables: dim, italic.
    DimItalic,
    /// A link shown on its own line, and link labels.
    Link,
    /// A link inside a paragraph: underlined.
    LinkInline,
    /// Headings of level 1, 2 and 3 to 6: bold.
    H1,
    H2,
    H3,
    /// The rule under a level 1 or 2 heading.
    RuleH1,
    RuleH2,
    /// Body text.
    Body,
    /// Strong text: bright, bold.
    Bright,
    /// Emphasised text: italic.
    Italic,
    /// Block quotes: italic.
    Quote,
    /// Code blocks and `code` elements, on a dark background.
    Code,
    /// Code inside a paragraph.
    InlineCode,
    /// Images: italic.
    Image,
    /// The first row of a table: bold.
    TableHeader,
    /// Error messages.
    Error,
    /// Error headings: bold.
    ErrorBold,
    /// Warnings.
    Warn,
    /// Unstyled text.
    Plain,
}

/// Whether text in this style is drawn bold.
pub open spec fn style_bold(s: Style) -> bool {
    s == Style::Title || s == Style::Section || s == Style::H1 || s == Style::H2 || s == Style::H3
        || s == Style::Bright || s == Style::TableHeader || s == Style::ErrorBold
}

impl Style {
    /// Whether text in this style is drawn bold.
    pub fn is_bold(&self) -> (b: bool)
        ensures
            b == style_bold(*self),
    {
        match self {
            Style::Title | Style::Section | Style::H1 | Style::H2 | Style::H3 | Style::Bright
            | Style::TableHeader | Style::ErrorBold => true,
            _ => false,
        }
    }
}

/// A piece of text in one style.
pub struct Span {
    pub text: String,
    pub style: Style,
}

/// A line of styled pieces. A line without pieces is an empty line.
pub struct Line {
    pub spans: Vec<Span>,
}

/// A rendered page.
pub struct RenderedPage {
    pub title: String,
    pub url: String,
    pub lines: Vec<Line>,
    /// The page's links: target and label.
    pub links: Vec<(String, String)>,
}

/// A span as values.
pub type SpanV = (Seq<char>, Style);

/// A line as values.
pub type LineV = Seq<SpanV>;

/// The values of a span sequence.
pub open spec fn spans_view(v: Seq<Span>) -> LineV {
    v.map_values(|s: Span| (s.text@, s.style))
}

/// The values of a line sequence.
pub open spec fn lines_view(v: Seq<Line>) -> Seq<LineV> {
    v.map_values(|l: Line| spans_view(l.spans@))
}

/// The values of a link list.
pub open spec fn links_view(v: Seq<(String, String)>) -> Seq<(Seq<char>, Seq<char>)> {
    v.map_values(|p: (String, String)| (p.0@, p.1@))
}

/// The text of a line: its pieces one after another.
pub open spec fn line_text(l: LineV) -> Seq<char>
    decreases l.len(),
{
    if l.len() == 0 {
        seq![]
    } else {
        line_text(l.drop_last()) + l.last().0
    }
}

/// A line is bold when one of its pieces is.
pub open spec fn line_bold(l: LineV) -> bool {
    exists|i: int| 0 <= i < l.len() && style_bold(#[trigger] l[i].1)
}

impl Line {
    /// The text of the line.
    pub fn text(&self) -> (s: String)
        ensures
            s@ == line_text(spans_view(self.spans@)),
    {
        let ghost all = spans_view(self.spans@);
        let mut out: Vec<char> = Vec::new();
        let mut i: usize = 0;
        while i < self.spans.len()
            invariant
                i <= self.spans@.len(),
                all == spans_view(self.spans@),
                out@ == line_text(all.take(i as int)),
            decreases self.spans.len() - i,
        {
            assert(all.take(i + 1 as int).drop_last() =~= all.take(i as int));
            let t = chars_of(self.spans[i].text.as_str());
            extend_chars(&mut out, t.as_slice());
            i += 1;
        }
        assert(all.take(i as int) =~= all);
        string_of(out.as_slice())
    }

    /// Whether one of the line's pieces is bold.
    pub fn is_bold(&self) -> (b: bool)
        ensures
            b == line_bold(spans_view(self.spans@)),
    {
        let ghost all = spans_view(self.spans@);
        let mut i: usize = 0;
        while i < self.spans.len()
            invariant
                i <= self.spans@.len(),
                all == spans_view(self.spans@),
                forall|k: int| 0 <= k < i ==> !style_bold(#[trigger] all[k].1),
            decreases self.spans.len() - i,
        {
            if self.spans[i].style.is_bold() {
                assert(style_bold(all[i as int].1));
                return true;
            }
            i += 1;
        }
        false
    }
}

// ── Text helpers ───────────────────────────────────────────────────────────

/// `s` repeated `n` times.
pub open spec fn repeat(s: Seq<char>, n: nat) -> Seq<char>
    decreases n,
{
    if n == 0 {
        seq![]
    } else {
        repeat(s, (n - 1) as nat) + s
    }
}

/// `s` repeated `n` times.
pub fn repeat_chars(s: &str, n: usize) -> (r: Vec<char>)
    ensures
        r@ == repeat(s@, n as nat),
{
    let c = chars_of(s);
    let mut out: Vec<char> = Vec::new();
    let mut k: usize = 0;
    while k < n
        invariant
            k <= n,
            c@ == s@,
            out@ == repeat(s@, k as nat),
        decreases n - k,
    {
        extend_chars(&mut out, c.as_slice());
        k += 1;
    }
    out
}

/// `s` with spaces in front up to `width` characters (`{:>width$}`).
pub open spec fn pad_left(s: Seq<char>, width: nat) -> Seq<char> {
    if s.len() >= width {
        s
    } else {
        repeat(seq![' '], (width - s.len()) as nat) + s
    }
}

/// `s` with spaces after it up to `width` characters (`{:width$}`).
pub open spec fn pad_right(s: Seq<char>, width: nat) -> Seq<char> {
    if s.len() >= width {
        s
    } else {
        s + repeat(seq![' '], (width - s.len()) as nat)
    }
}

/// `s` with spaces in front up to `width` characters.
fn pad_left_chars(s: &[char], width: usize) -> (r: Vec<char>)
    ensures
        r@ == pad_left(s@, width as nat),
{
    let mut out: Vec<char> = Vec::new();
    if s.len() < width {
        out = repeat_chars(" ", width - s.len());
        proof {
            reveal_strlit(" ");
        }
        assert(" "@ =~= seq![' ']);
    }
    extend_chars(&mut out, s);
    out
}

/// `s` with spaces after it up to `width` characters.
fn pad_right_chars(s: &[char], width: usize) -> (r: Vec<char>)
    ensures
        r@ == pad_right(s@, width as nat),
{
    let mut out: Vec<char> = Vec::new();
    extend_chars(&mut out, s);
    if s.len() < width {
        let pad = repeat_chars(" ", width - s.len());
        proof {
            reveal_strlit(" ");
        }
        assert(" "@ =~= seq![' ']);
        extend_chars(&mut out, pad.as_slice());
    }
    out
}

/// The first `n` characters, or all of them if there are fewer.
pub open spec fn take_chars(s: Seq<char>, n: nat) -> Seq<char> {
    if s.len() <= n {
        s
    } else {
        s.take(n as int)
    }
}

/// The first `n` characters, or all of them if there are fewer.
fn take_chars_exec(s: &[char], n: usize) -> (r: Vec<char>)
    ensures
        r@ == take_chars(s@, n as nat),
{
    let m = if s.len() <= n { s.len() } else { n };
    let mut out: Vec<char> = Vec::new();
    let mut k: usize = 0;
    while k < m
        invariant
            k <= m <= s@.len(),
            m == if s@.len() <= n { s@.len() } else { n as nat },
            out@ == s@.take(k as int),
        decreases m - k,
    {
        out.push(s[k]);
        k += 1;
        assert(out@ =~= s@.take(k as int));
    }
    if s.len() <= n {
        assert(s@.take(k as int) =~= s@);
    }
    out
}

/// The pieces and the piece being read, after scanning `s` for line breaks.
pub open spec fn line_scan(s: Seq<char>) -> (Seq<Seq<char>>, Seq<char>)
    decreases s.len(),
{
    if s.len() == 0 {
        (seq![], seq![])
    } else {
        let (done, cur) = line_scan(s.drop_last());
        if s.last() == '\n' {
            (done.push(strip_cr(cur)), seq![])
        } else {
            (done, cur.push(s.last()))
        }
    }
}

/// A line without the carriage return that ended it.
pub open spec fn strip_cr(l: Seq<char>) -> Seq<char> {
    if l.len() > 0 && l.last() == '\r' {
        l.drop_last()
    } else {
        l
    }
}

/// The lines of a text (`str::lines`): split after each line feed, a
/// carriage return before the line feed removed, no empty line after a final
/// line feed.
pub open spec fn text_lines(s: Seq<char>) -> Seq<Seq<char>> {
    let (done, cur) = line_scan(s);
    if cur.len() > 0 {
        done.push(cur)
    } else {
        done
    }
}

/// The lines of a text, as `str::lines` gives them.
pub fn text_lines_exec(s: &[char]) -> (r: Vec<Vec<char>>)
    ensures
        char_views(r@) == text_lines(s@),
{
    let mut done: Vec<Vec<char>> = Vec::new();
    let mut cur: Vec<char> = Vec::new();
    let mut i: usize = 0;
    while i < s.len()
        invariant
            i <= s@.len(),
            char_views(done@) == line_scan(s@.take(i as int)).0,
            cur@ == line_scan(s@.take(i as int)).1,
        decreases s.len() - i,
    {
        assert(s@.take(i + 1 as int).drop_last() =~= s@.take(i as int));
        if s[i] == '\n' {
            if cur.len() > 0 && cur[cur.len() - 1] == '\r' {
                cur.pop();
            }
            let ghost before = char_views(done@);
            done.push(cur);
            assert(char_views(done@) =~= before.push(done@.last()@));
            cur = Vec::new();
        } else {
            cur.push(s[i]);
        }
        i += 1;
    }
    assert(s@.take(i as int) =~= s@);
    if cur.len() > 0 {
        let ghost before = char_views(done@);
        done.push(cur);
        assert(char_views(done@) =~= before.push(done@.last()@));
    }
    done
}

/// The common HTML entities replaced by their characters.
pub open spec fn decode_entities(s: Seq<char>) -> Seq<char> {
    replace_all(
        replace_all(
            replace_all(
                replace_all(
                    replace_all(replace_all(s, "&amp;"@, "&"@), "&lt;"@, "<"@),
                    "&gt;"@,
                    ">"@,
                ),
                "&quot;"@,
                "\""@,
            ),
            "&#39;"@,
            "'"@,
        ),
        "&#x27;"@,
        "'"@,
    )
}

/// The trimmed text of a node with the common entities decoded.
pub open spec fn node_text(t: Tree) -> Seq<char> {
    decode_entities(trim(text_of(t)))
}

/// Replaces one pattern by another in a character vector.
fn replace_lit(s: Vec<char>, pat: &str, rep: &str) -> (r: Vec<char>)
    requires
        pat@.len() > 0,
    ensures
        r@ == replace_all(s@, pat@, rep@),
{
    let p = chars_of(pat);
    let q = chars_of(rep);
    replace_chars(s.as_slice(), p.as_slice(), q.as_slice())
}

/// The trimmed text of a node with the common entities decoded.
pub fn node_text_exec(n: &DomNode) -> (r: Vec<char>)
    ensures
        r@ == node_text(node_view(*n)),
{
    proof {
        reveal_strlit("&amp;");
        reveal_strlit("&lt;");
        reveal_strlit("&gt;");
        reveal_strlit("&quot;");
        reveal_strlit("&#39;");
        reveal_strlit("&#x27;");
    }
    let raw = text_of_node(n);
    let t = trim_chars(raw.as_slice());
    let t = replace_lit(t, "&amp;", "&");
    let t = replace_lit(t, "&lt;", "<");
    let t = replace_lit(t, "&gt;", ">");
    let t = replace_lit(t, "&quot;", "\"");
    let t = replace_lit(t, "&#39;", "'");
    replace_lit(t, "&#x27;", "'")
}

/// Whether the characters are exactly the given string.
pub fn is_str(name: &[char], tag: &str) -> (b: bool)
    ensures
        b == (name@ == tag@),
{
    let t = chars_of(tag);
    chars_equal(name, t.as_slice())
}

// ── Building lines ─────────────────────────────────────────────────────────

/// A span with the given text and style.
pub fn mk_span(text: &[char], style: Style) -> (s: Span)
    ensures
        s.text@ == text@,
        s.style == style,
{
    Span { text: string_of(text), style }
}

/// Appends a line made of the given spans.
pub fn push_line(out: &mut Vec<Line>, spans: Vec<Span>)
    ensures
        lines_view(final(out)@) == lines_view(old(out)@).push(spans_view(spans@)),
{
    let ghost before = lines_view(out@);
    out.push(Line { spans });
    assert(lines_view(out@) =~= before.push(spans_view(spans@)));
}

/// Appends an empty line.
pub fn push_empty(out: &mut Vec<Line>)
    ensures
        lines_view(final(out)@) == lines_view(old(out)@).push(seq![]),
{
    let spans: Vec<Span> = Vec::new();
    assert(spans_view(spans@) =~= Seq::<SpanV>::empty());
    push_line(out, spans);
}

/// Appends a line of one span.
pub fn push_text(out: &mut Vec<Line>, text: &[char], style: Style)
    ensures
        lines_view(final(out)@) == lines_view(old(out)@).push(seq![(text@, style)]),
{
    let mut spans: Vec<Span> = Vec::new();
    spans.push(mk_span(text, style));
    assert(spans_view(spans@) =~= seq![(text@, style)]);
    push_line(out, spans);
}

/// Appends a span.
pub fn push_span(spans: &mut Vec<Span>, text: &[char], style: Style)
    ensures
        spans_view(final(spans)@) == spans_view(old(spans)@).push((text@, style)),
{
    let ghost before = spans_view(spans@);
    spans.push(mk_span(text, style));
    assert(spans_view(spans@) =~= before.push((text@, style)));
}

/// Two character sequences, one after the other.
pub fn cat(a: &[char], b: &[char]) -> (r: Vec<char>)
    ensures
        r@ == a@ + b@,
{
    let mut out: Vec<char> = Vec::new();
    extend_chars(&mut out, a);
    extend_chars(&mut out, b);
    assert(out@ =~= a@ + b@);
    out
}

/// A string literal followed by characters.
pub fn lit_cat(a: &str, b: &[char]) -> (r: Vec<char>)
    ensures
        r@ == a@ + b@,
{
    let a = chars_of(a);
    cat(a.as_slice(), b)
}

// ── Inline content of a paragraph ──────────────────────────────────────────

/// The value of an optional attribute, or a default.
pub open spec fn or_default(o: Option<Seq<char>>, d: Seq<char>) -> Seq<char> {
    match o {
        Some(v) => v,
        None => d,
    }
}

/// A link target that leads somewhere: not empty, not a fragment of the same
/// page, not a script.
pub open spec fn real_target(href: Seq<char>) -> bool {
    href.len() > 0 && !starts_with(href, "#"@) && !starts_with(href, "javascript:"@)
}

/// A one-piece line list for non-empty text, nothing for empty text.
pub open spec fn span_if(text: Seq<char>, style: Style) -> LineV {
    if text.len() > 0 {
        seq![(text, style)]
    } else {
        seq![]
    }
}

/// The spans that one child of a paragraph contributes: links, strong and
/// emphasised text, code, line breaks and images get their own style, text is
/// trimmed, any other element contributes its own children's spans.
pub open spec fn inline_child(t: Tree) -> LineV
    decreases t, 0nat,
{
    match t {
        Tree::Elem { name, attrs, kids } => {
            let text = trim(text_of(t));
            if name == "a"@ {
                let href = or_default(attr_of(attrs, "href"@), seq![]);
                if text.len() > 0 && !starts_with(href, "#"@) && !starts_with(href, "javascript:"@) {
                    seq![(text, Style::LinkInline)]
                } else {
                    span_if(text, Style::Body)
                }
            } else if name == "b"@ || name == "strong"@ {
                span_if(text, Style::Bright)
            } else if name == "i"@ || name == "em"@ {
                span_if(text, Style::Italic)
            } else if name == "code"@ {
                if text.len() > 0 {
                    seq![("`"@ + text + "`"@, Style::InlineCode)]
                } else {
                    seq![]
                }
            } else if name == "br"@ {
                seq![(" "@, Style::Plain)]
            } else if name == "img"@ {
                seq![("["@ + or_default(attr_of(attrs, "alt"@), "[img]"@) + "]"@, Style::Image)]
            } else {
                inline_of(kids)
            }
        },
        Tree::Text(x) => span_if(trim(x), Style::Body),
        Tree::Other => seq![],
    }
}

/// The spans of a sequence of paragraph children, in order.
pub open spec fn inline_of(ts: Seq<Tree>) -> LineV
    decreases ts, 1nat,
{
    if ts.len() == 0 {
        seq![]
    } else {
        inline_of(ts.drop_last()) + inline_child(ts.last())
    }
}

/// The elements that a paragraph draws in a style of their own, or
/// replaces: links, strong and emphasised text, code, line breaks, images.
pub open spec fn inline_special(name: Seq<char>) -> bool {
    name == "a"@ || name == "b"@ || name == "strong"@ || name == "i"@ || name == "em"@ || name == "code"@
        || name == "br"@ || name == "img"@
}

/// A text node whose trimmed text is `x` lies among these children, under
/// nothing but ordinary elements.
pub open spec fn plain_text_in(ts: Seq<Tree>, x: Seq<char>) -> bool
    decreases ts, 1nat,
{
    if ts.len() == 0 {
        false
    } else {
        plain_text_in(ts.drop_last(), x) || plain_text_at(ts.last(), x)
    }
}

/// This node is, or holds under nothing but ordinary elements, a text node
/// whose trimmed text is `x`.
pub open spec fn plain_text_at(t: Tree, x: Seq<char>) -> bool
    decreases t, 0nat,
{
    match t {
        Tree::Text(y) => trim(y) == x,
        Tree::Elem { name, attrs, kids } => !inline_special(name) && plain_text_in(kids, x),
        Tree::Other => false,
    }
}

/// The text of two runs of pieces is the text of the first, then of the
/// second.
pub proof fn lemma_line_text_add(a: LineV, b: LineV)
    ensures
        line_text(a + b) == line_text(a) + line_text(b),
    decreases b.len(),
{
    if b.len() == 0 {
        assert(a + b =~= a);
        assert(line_text(a) + line_text(b) =~= line_text(a));
    } else {
        lemma_line_text_add(a, b.drop_last());
        assert((a + b).drop_last() =~= a + b.drop_last());
        assert((a + b).last() == b.last());
        assert(line_text(a + b) =~= line_text(a) + line_text(b));
    }
}

/// What a text holds, a longer text holds too, whatever is put around it.
pub proof fn lemma_contains_in_add(a: Seq<char>, b: Seq<char>, x: Seq<char>)
    ensures
        crate::text::contains(a, x) ==> crate::text::contains(a + b, x),
        crate::text::contains(b, x) ==> crate::text::contains(a + b, x),
{
    if crate::text::contains(a, x) {
        let i = choose|i: int| crate::text::occurs_at(a, x, i);
        assert((a + b).subrange(i, i + x.len()) =~= a.subrange(i, i + x.len()));
        assert(crate::text::occurs_at(a + b, x, i));
    }
    if crate::text::contains(b, x) {
        let i = choose|i: int| crate::text::occurs_at(b, x, i);
        assert((a + b).subrange(a.len() + i, a.len() + i + x.len()) =~= b.subrange(i, i + x.len()));
        assert(crate::text::occurs_at(a + b, x, a.len() + i));
    }
}

/// A child that holds the text under ordinary elements draws it.
pub proof fn lemma_inline_child_shows(t: Tree, x: Seq<char>)
    requires
        plain_text_at(t, x),
        x.len() > 0,
    ensures
        crate::text::contains(line_text(inline_child(t)), x),
        !crate::text::white_space(x[0]),
    decreases t, 0nat,
{
    match t {
        Tree::Text(y) => {
            crate::text::lemma_trim_first_not_white(y);
            assert(inline_child(t) == seq![(x, Style::Body)]);
            let one: LineV = seq![(x, Style::Body)];
            assert(one.drop_last() =~= Seq::<(Seq<char>, Style)>::empty());
            assert(line_text(one.drop_last()) == Seq::<char>::empty());
            assert(line_text(one) == line_text(one.drop_last()) + one.last().0);
            assert(line_text(one) =~= x);
            assert(crate::text::occurs_at(x, x, 0)) by {
                assert(x.subrange(0, x.len() as int) =~= x);
            }
        },
        Tree::Elem { name, attrs, kids } => {
            lemma_inline_of_shows(kids, x);
        },
        Tree::Other => {},
    }
}

/// Children that hold the text under ordinary elements draw it.
pub proof fn lemma_inline_of_shows(ts: Seq<Tree>, x: Seq<char>)
    requires
        plain_text_in(ts, x),
        x.len() > 0,
    ensures
        crate::text::contains(line_text(inline_of(ts)), x),
        !crate::text::white_space(x[0]),
    decreases ts, 1nat,
{
    if ts.len() > 0 {
        let front = ts.drop_last();
        lemma_line_text_add(inline_of(front), inline_child(ts.last()));
        if plain_text_in(front, x) {
            lemma_inline_of_shows(front, x);
        } else {
            lemma_inline_child_shows(ts.last(), x);
        }
        lemma_contains_in_add(line_text(inline_of(front)), line_text(inline_child(ts.last())), x);
    }
}

/// A paragraph's text reaches its line: every text node below a paragraph
/// that is not inside a link, strong or emphasised text, code, a line break
/// or an image, and is not empty once trimmed, has its trimmed text on the
/// paragraph's line, whatever ordinary elements (`span`, `sup`, `mark`, ...)
/// enclose it. Drawn without a prefix, such a paragraph is always drawn.
pub proof fn law_paragraph_shows_its_text(attrs: Seq<crate::dom::AttrV>, kids: Seq<Tree>, pfx: Seq<char>, x: Seq<char>)
    requires
        plain_text_in(kids, x),
        x.len() > 0,
    ensures
        node_lines(Tree::Elem { name: "p"@, attrs, kids }, pfx).len() > 0 ==> crate::text::contains(
            line_text(node_lines(Tree::Elem { name: "p"@, attrs, kids }, pfx)[0]),
            x,
        ),
        pfx.len() == 0 ==> node_lines(Tree::Elem { name: "p"@, attrs, kids }, pfx).len() > 0,
{
    let p = Tree::Elem { name: "p"@, attrs, kids };
    reveal_strlit("p");
    reveal_strlit("br");
    reveal_strlit("hr");
    assert("p"@.len() == 1);
    reveal_strlit("nav");
    assert("nav"@.len() == 3);
    assert("p"@ != "nav"@);
    assert(!skipped_tag("p"@)) by {
        reveal_strlit("script");
        assert("p"@ != "script"@);
        reveal_strlit("style");
        assert("p"@ != "style"@);
        reveal_strlit("noscript");
        assert("p"@ != "noscript"@);
        reveal_strlit("iframe");
        assert("p"@ != "iframe"@);
        reveal_strlit("svg");
        assert("p"@ != "svg"@);
        reveal_strlit("canvas");
        assert("p"@ != "canvas"@);
        reveal_strlit("nav");
        reveal_strlit("footer");
        assert("p"@ != "footer"@);
        reveal_strlit("header");
        assert("p"@ != "header"@);
        reveal_strlit("aside");
        assert("p"@ != "aside"@);
    }
    assert(!heading_tag("p"@)) by {
        reveal_strlit("h1");
        assert("p"@ != "h1"@);
        reveal_strlit("h2");
        assert("p"@ != "h2"@);
        reveal_strlit("h3");
        assert("p"@ != "h3"@);
        reveal_strlit("h4");
        assert("p"@ != "h4"@);
        reveal_strlit("h5");
        assert("p"@ != "h5"@);
        reveal_strlit("h6");
        assert("p"@ != "h6"@);
    }
    assert(node_lines(p, pfx) == paragraph_lines(pfx, inline_of(kids)));
    let inl = inline_of(kids);
    let head: LineV = seq![(pfx, Style::Body)];
    lemma_inline_of_shows(kids, x);
    lemma_line_text_add(head, inl);
    assert(head.drop_last() =~= Seq::<(Seq<char>, Style)>::empty());
    assert(line_text(head.drop_last()) == Seq::<char>::empty());
    assert(line_text(head) == line_text(head.drop_last()) + head.last().0);
    assert(line_text(head) =~= pfx);
    lemma_contains_in_add(pfx, line_text(inl), x);
    if pfx.len() == 0 {
        let lt = line_text(head + inl);
        let i = choose|i: int| crate::text::occurs_at(lt, x, i);
        assert(lt[i] == x[0]);
        crate::text::lemma_trim_first_not_white(x);
        crate::text::lemma_trim_not_empty(lt, i);
    }
}

/// Appends a span for non-empty text.
fn push_span_if(spans: &mut Vec<Span>, text: &[char], style: Style)
    ensures
        spans_view(final(spans)@) == spans_view(old(spans)@) + span_if(text@, style),
{
    if text.len() > 0 {
        push_span(spans, text, style);
        assert(spans_view(old(spans)@).push((text@, style)) =~= spans_view(old(spans)@) + span_if(text@, style));
    } else {
        assert(spans_view(old(spans)@) + span_if(text@, style) =~= spans_view(old(spans)@));
    }
}

/// Whether an attribute value is a link target that leads somewhere, without
/// the emptiness test.
fn not_fragment_or_script(href: &[char]) -> (b: bool)
    ensures
        b == (!starts_with(href@, "#"@) && !starts_with(href@, "javascript:"@)),
{
    let hash = chars_of("#");
    let js = chars_of("javascript:");
    !starts_with_chars(href, hash.as_slice()) && !starts_with_chars(href, js.as_slice())
}

/// The value of an attribute, or the default when it is missing.
fn attr_or(n: &DomNode, name: &str, default: &str) -> (r: Vec<char>)
    ensures
        r@ == or_default(tree_attr(node_view(*n), name@), default@),
{
    match node_attr(n, name) {
        Some(v) => chars_of(v.as_str()),
        None => chars_of(default),
    }
}

/// Appends the spans of one paragraph child.
fn inline_node(n: &DomNode, spans: &mut Vec<Span>)
    ensures
        spans_view(final(spans)@) == spans_view(old(spans)@) + inline_child(node_view(*n)),
    decreases n,
{
    match n {
        DomNode::Element(e) => {
            let ghost t = node_view(*n);
            assert(t == Tree::Elem { name: e.name@, attrs: crate::dom::attr_views(e.attrs@), kids: kids_view(e.children@) });
            let name = chars_of(e.name.as_str());
            let raw = text_of_node(n);
            let text = trim_chars(raw.as_slice());
            if is_str(name.as_slice(), "a") {
                let href = attr_or(n, "href", "");
                proof {
                    reveal_strlit("");
                }
                assert(""@ =~= Seq::<char>::empty());
                if text.len() > 0 && not_fragment_or_script(href.as_slice()) {
                    push_span(spans, text.as_slice(), Style::LinkInline);
                    assert(spans_view(old(spans)@).push((text@, Style::LinkInline)) =~= spans_view(old(spans)@) + seq![(text@, Style::LinkInline)]);
                } else {
                    push_span_if(spans, text.as_slice(), Style::Body);
                }
                assert(spans_view(spans@) == spans_view(old(spans)@) + inline_child(t));
            } else if is_str(name.as_slice(), "b") || is_str(name.as_slice(), "strong") {
                push_span_if(spans, text.as_slice(), Style::Bright);
                assert(spans_view(spans@) == spans_view(old(spans)@) + inline_child(t));
            } else if is_str(name.as_slice(), "i") || is_str(name.as_slice(), "em") {
                push_span_if(spans, text.as_slice(), Style::Italic);
                assert(spans_view(spans@) == spans_view(old(spans)@) + inline_child(t));
            } else if is_str(name.as_slice(), "code") {
                if text.len() > 0 {
                    let a = lit_cat("`", text.as_slice());
                    let b = chars_of("`");
                    let c = cat(a.as_slice(), b.as_slice());
                    push_span(spans, c.as_slice(), Style::InlineCode);
                    assert(spans_view(old(spans)@).push((c@, Style::InlineCode)) =~= spans_view(old(spans)@) + seq![(c@, Style::InlineCode)]);
                } else {
                    assert(spans_view(old(spans)@) + Seq::<SpanV>::empty() =~= spans_view(old(spans)@));
                }
            } else if is_str(name.as_slice(), "br") {
                let sp = chars_of(" ");
                push_span(spans, sp.as_slice(), Style::Plain);
                assert(spans_view(old(spans)@).push((sp@, Style::Plain)) =~= spans_view(old(spans)@) + seq![(sp@, Style::Plain)]);
            } else if is_str(name.as_slice(), "img") {
                let alt = attr_or(n, "alt", "[img]");
                let a = lit_cat("[", alt.as_slice());
                let b = chars_of("]");
                let c = cat(a.as_slice(), b.as_slice());
                push_span(spans, c.as_slice(), Style::Image);
                assert(spans_view(old(spans)@).push((c@, Style::Image)) =~= spans_view(old(spans)@) + seq![(c@, Style::Image)]);
            } else {
                inline_kids(e, spans);
                assert(spans_view(spans@) == spans_view(old(spans)@) + inline_child(t));
            }
        },
        DomNode::Text(x) => {
            let c = chars_of(x.as_str());
            let t = trim_chars(c.as_slice());
            push_span_if(spans, t.as_slice(), Style::Body);
        },
        DomNode::Other => {
            assert(spans_view(old(spans)@) + Seq::<SpanV>::empty() =~= spans_view(old(spans)@));
        },
    }
}

/// Appends the spans of an element's children.
fn inline_kids(e: &Element, spans: &mut Vec<Span>)
    ensures
        spans_view(final(spans)@) == spans_view(old(spans)@) + inline_of(kids_view(e.children@)),
    decreases e,
{
    let ghost kids = kids_view(e.children@);
    proof {
        lemma_kids_view(e.children@);
    }
    let ghost start = spans_view(spans@);
    assert(start + inline_of(kids.take(0)) =~= start);
    let mut k: usize = 0;
    while k < e.children.len()
        invariant
            k <= e.children@.len() == kids.len(),
            kids == kids_view(e.children@),
            spans_view(spans@) == start + inline_of(kids.take(k as int)),
        decreases e.children.len() - k,
    {
        proof {
            lemma_kids_view(e.children@);
        }
        assert(kids[k as int] == node_view(e.children@[k as int]));
        assert(kids.take(k + 1 as int).drop_last() =~= kids.take(k as int));
        inline_node(&e.children[k], spans);
        assert(start + inline_of(kids.take(k + 1 as int)) =~= start + inline_of(kids.take(k as int))
            + inline_child(kids[k as int]));
        k += 1;
    }
    assert(kids.take(k as int) =~= kids);
}

// ── Tables ─────────────────────────────────────────────────────────────────

/// The selector for table rows.
pub open spec fn tr_sel() -> Seq<SelV> {
    seq![("tr"@, None, None)]
}

/// The selector for table cells.
pub open spec fn cell_sel() -> Seq<SelV> {
    seq![("td"@, None, None), ("th"@, None, None)]
}

/// The trimmed texts of the cells below a row, in document order.
pub open spec fn row_cells(row: Tree) -> Seq<Seq<char>> {
    let cs = select_below(row, cell_sel());
    Seq::new(cs.len(), |j: int| trim(text_of(cs[j])))
}

/// The cell texts of each row below a table, in document order.
pub open spec fn table_rows(t: Tree) -> Seq<Seq<Seq<char>>> {
    let rs = select_below(t, tr_sel());
    Seq::new(rs.len(), |i: int| row_cells(rs[i]))
}

/// The larger of two numbers.
pub open spec fn nat_max(a: nat, b: nat) -> nat {
    if a >= b {
        a
    } else {
        b
    }
}

/// The number of cells of the longest row.
pub open spec fn max_cols(rows: Seq<Seq<Seq<char>>>) -> nat
    decreases rows.len(),
{
    if rows.len() == 0 {
        0
    } else {
        nat_max(max_cols(rows.drop_last()), rows.last().len())
    }
}

/// The width of a column: the longest of its cells, in characters.
pub open spec fn col_width(rows: Seq<Seq<Seq<char>>>, c: int) -> nat
    decreases rows.len(),
{
    if rows.len() == 0 {
        0
    } else {
        let w = if 0 <= c < rows.last().len() {
            rows.last()[c].len()
        } else {
            0
        };
        nat_max(col_width(rows.drop_last(), c), w)
    }
}

/// The sum of the widths of the first `n` columns.
pub open spec fn widths_sum(rows: Seq<Seq<Seq<char>>>, n: nat) -> nat
    decreases n,
{
    if n == 0 {
        0
    } else {
        widths_sum(rows, (n - 1) as nat) + col_width(rows, n - 1)
    }
}

/// The width of the table as drawn: the columns, a three-character border
/// between columns and four characters of margin.
pub open spec fn table_width(rows: Seq<Seq<Seq<char>>>) -> int {
    widths_sum(rows, max_cols(rows)) + (max_cols(rows) - 1) * 3 + 4
}

/// All cells, row after row.
pub open spec fn all_cells(rows: Seq<Seq<Seq<char>>>) -> Seq<Seq<char>>
    decreases rows.len(),
{
    if rows.len() == 0 {
        seq![]
    } else {
        all_cells(rows.drop_last()) + rows.last()
    }
}

/// The spans for the first `n` cells of a row: each padded to its column's
/// width with a space on either side, a border after every column but the
/// last.
pub open spec fn cell_spans(rows: Seq<Seq<Seq<char>>>, row: Seq<Seq<char>>, style: Style, n: nat) -> LineV
    decreases n,
{
    if n == 0 {
        seq![]
    } else {
        let ci = n - 1;
        cell_spans(rows, row, style, ci as nat) + seq![(" "@ + pad_right(row[ci], col_width(rows, ci)) + " "@, style)]
            + if ci < max_cols(rows) - 1 {
            seq![(" │ "@, Style::Separator)]
        } else {
            seq![]
        }
    }
}

/// The spans of the rule under the first row, for the first `n` columns.
pub open spec fn rule_spans(rows: Seq<Seq<Seq<char>>>, n: nat) -> LineV
    decreases n,
{
    if n == 0 {
        seq![]
    } else {
        let ci = n - 1;
        rule_spans(rows, ci as nat) + seq![(" "@ + repeat("─"@, col_width(rows, ci)) + " "@, Style::Separator)]
            + if ci < max_cols(rows) - 1 {
            seq![(" ┼ "@, Style::Separator)]
        } else {
            seq![]
        }
    }
}

/// The line of row `r`; the first row is the header.
pub open spec fn row_line(rows: Seq<Seq<Seq<char>>>, r: int, pfx: Seq<char>) -> LineV {
    let style = if r == 0 {
        Style::TableHeader
    } else {
        Style::Body
    };
    seq![(pfx, Style::Body)] + cell_spans(rows, rows[r], style, rows[r].len())
}

/// The rule under the header row.
pub open spec fn rule_line(rows: Seq<Seq<Seq<char>>>, pfx: Seq<char>) -> LineV {
    seq![(pfx, Style::Dim)] + rule_spans(rows, max_cols(rows))
}

/// The lines of the first `n` rows, with the rule after the header when there
/// is more than one row.
pub open spec fn table_body(rows: Seq<Seq<Seq<char>>>, pfx: Seq<char>, n: nat) -> Seq<LineV>
    decreases n,
{
    if n == 0 {
        seq![]
    } else {
        let r = n - 1;
        table_body(rows, pfx, r as nat) + seq![row_line(rows, r, pfx)] + if r == 0 && rows.len() > 1 {
            seq![rule_line(rows, pfx)]
        } else {
            seq![]
        }
    }
}

/// Whether every row is empty.
pub open spec fn all_rows_empty(rows: Seq<Seq<Seq<char>>>) -> bool {
    forall|r: int| 0 <= r < rows.len() ==> (#[trigger] rows[r]).len() == 0
}

/// How a table is drawn: nothing when it has no cells; a one-line summary of
/// its text when it is wider than 120 characters; otherwise a grid with a
/// header row, between empty lines.
pub open spec fn table_lines_of(rows: Seq<Seq<Seq<char>>>, pfx: Seq<char>) -> Seq<LineV> {
    if rows.len() == 0 || all_rows_empty(rows) {
        seq![]
    } else if table_width(rows) > 120 {
        let text = join(all_cells(rows), " "@);
        if text.len() > 0 {
            seq![seq![], seq![(pfx + "[table: "@ + take_chars(text, 120) + "]"@, Style::DimItalic)], seq![]]
        } else {
            seq![]
        }
    } else {
        seq![seq![]] + table_body(rows, pfx, rows.len()) + seq![seq![]]
    }
}

/// The lines of a table element.
pub open spec fn table_lines(t: Tree, pfx: Seq<char>) -> Seq<LineV> {
    table_lines_of(table_rows(t), pfx)
}

/// The views of a sequence of rows of cells.
pub open spec fn rows_view(v: Seq<Vec<Vec<char>>>) -> Seq<Seq<Seq<char>>> {
    v.map_values(|r: Vec<Vec<char>>| char_views(r@))
}

/// The selector list for table rows.
fn tr_selector() -> (v: Vec<SimpleSel>)
    ensures
        sel_views(v@) == tr_sel(),
{
    let mut v: Vec<SimpleSel> = Vec::new();
    v.push(crate::dom::sel_tag("tr"));
    assert(sel_views(v@) =~= tr_sel());
    v
}

/// The selector list for table cells.
fn cell_selector() -> (v: Vec<SimpleSel>)
    ensures
        sel_views(v@) == cell_sel(),
{
    let mut v: Vec<SimpleSel> = Vec::new();
    v.push(crate::dom::sel_tag("td"));
    v.push(crate::dom::sel_tag("th"));
    assert(sel_views(v@) =~= cell_sel());
    v
}

/// The cell texts of each row below a table.
fn collect_rows(table: &DomNode) -> (rows: Vec<Vec<Vec<char>>>)
    ensures
        rows_view(rows@) == table_rows(node_view(*table)),
{
    let trs = select_nodes_below(table, &tr_selector());
    let cell_sels = cell_selector();
    let ghost rs = select_below(node_view(*table), tr_sel());
    let mut rows: Vec<Vec<Vec<char>>> = Vec::new();
    let mut i: usize = 0;
    while i < trs.len()
        invariant
            i <= trs@.len(),
            crate::dom::ref_views(trs@) == rs,
            sel_views(cell_sels@) == cell_sel(),
            rows@.len() == i,
            forall|k: int| 0 <= k < i ==> #[trigger] char_views(rows@[k]@) == row_cells(rs[k]),
        decreases trs.len() - i,
    {
        let cells = select_nodes_below(trs[i], &cell_sels);
        let ghost cs = select_below(rs[i as int], cell_sel());
        assert(rs[i as int] == node_view(*trs@[i as int]));
        let mut row: Vec<Vec<char>> = Vec::new();
        let mut j: usize = 0;
        while j < cells.len()
            invariant
                j <= cells@.len(),
                crate::dom::ref_views(cells@) == cs,
                row@.len() == j,
                forall|k: int| 0 <= k < j ==> #[trigger] row@[k]@ == trim(text_of(cs[k])),
            decreases cells.len() - j,
        {
            assert(cs[j as int] == node_view(*cells@[j as int]));
            let raw = text_of_node(cells[j]);
            row.push(trim_chars(raw.as_slice()));
            j += 1;
        }
        assert(char_views(row@) =~= row_cells(rs[i as int]));
        rows.push(row);
        i += 1;
    }
    assert(rows_view(rows@) =~= table_rows(node_view(*table)));
    rows
}

/// Appends the lines of a table element.
fn render_table(table: &DomNode, pfx: &[char], out: &mut Vec<Line>)
    ensures
        lines_view(final(out)@) == lines_view(old(out)@) + table_lines(node_view(*table), pfx@),
{
    let rows = collect_rows(table);
    let ghost rv = rows_view(rows@);
    let nr = rows.len();
    // Longest row, and whether any row has cells.
    let mut mc: usize = 0;
    let mut r: usize = 0;
    while r < nr
        invariant
            r <= nr == rows@.len(),
            rv == rows_view(rows@),
            mc == max_cols(rv.take(r as int)),
        decreases nr - r,
    {
        assert(rv.take(r + 1 as int).drop_last() =~= rv.take(r as int));
        if rows[r].len() > mc {
            mc = rows[r].len();
        }
        r += 1;
    }
    assert(rv.take(nr as int) =~= rv);
    if mc == 0 {
        assert(nr == 0 || all_rows_empty(rv)) by {
            assert forall|k: int| 0 <= k < rv.len() implies (#[trigger] rv[k]).len() == 0 by {
                lemma_max_cols_bound(rv, k);
            }
        }
        assert(lines_view(out@) + table_lines(node_view(*table), pfx@) =~= lines_view(out@));
        return;
    }
    proof {
        lemma_not_all_empty(rv);
    }
    // Column widths.
    let mut widths: Vec<usize> = Vec::new();
    let mut c: usize = 0;
    while c < mc
        invariant
            c <= mc == max_cols(rv),
            nr == rows@.len(),
            rv == rows_view(rows@),
            widths@.len() == c,
            forall|k: int| 0 <= k < c ==> #[trigger] widths@[k] == col_width(rv, k),
        decreases mc - c,
    {
        let mut w: usize = 0;
        let mut r2: usize = 0;
        while r2 < nr
            invariant
                r2 <= nr == rows@.len(),
                rv == rows_view(rows@),
                w == col_width(rv.take(r2 as int), c as int),
            decreases nr - r2,
        {
            assert(rv.take(r2 + 1 as int).drop_last() =~= rv.take(r2 as int));
            if c < rows[r2].len() && rows[r2][c].len() > w {
                w = rows[r2][c].len();
            }
            r2 += 1;
        }
        assert(rv.take(nr as int) =~= rv);
        widths.push(w);
        c += 1;
    }
    // Whether the table is wider than 120 characters; the sum of the widths
    // is counted only up to 121.
    let mut acc: usize = 0;
    let mut k: usize = 0;
    while k < mc
        invariant
            k <= mc,
            mc == max_cols(rv),
            widths@.len() == mc,
            forall|j: int| 0 <= j < mc ==> #[trigger] widths@[j] == col_width(rv, j),
            acc == if widths_sum(rv, k as nat) >= 121 { 121 } else { widths_sum(rv, k as nat) },
        decreases mc - k,
    {
        if widths[k] >= 121 - acc {
            acc = 121;
        } else {
            acc = acc + widths[k];
        }
        k += 1;
    }
    let too_wide = mc >= 40 || acc + (mc - 1) * 3 + 4 > 120;
    assert(too_wide == (table_width(rv) > 120));
    if too_wide {
        let cells = flatten_rows(&rows);
        let text = join_with(&cells, ' ');
        proof {
            reveal_strlit(" ");
        }
        assert(seq![' '] =~= " "@);
        if text.len() > 0 {
            push_empty(out);
            let a = lit_cat("[table: ", take_chars_exec(text.as_slice(), 120).as_slice());
            let b = chars_of("]");
            let body = cat(cat(pfx, a.as_slice()).as_slice(), b.as_slice());
            assert(body@ =~= pfx@ + "[table: "@ + take_chars(text@, 120) + "]"@);
            push_text(out, body.as_slice(), Style::DimItalic);
            push_empty(out);
            assert(lines_view(out@) =~= lines_view(old(out)@) + table_lines(node_view(*table), pfx@));
        } else {
            assert(lines_view(out@) + table_lines(node_view(*table), pfx@) =~= lines_view(out@));
        }
        return;
    }
    push_empty(out);
    let ghost start = lines_view(out@);
    let mut r3: usize = 0;
    while r3 < nr
        invariant
            r3 <= nr == rows@.len(),
            rv == rows_view(rows@),
            mc == max_cols(rv),
            mc >= 1,
            widths@.len() == mc,
            forall|j: int| 0 <= j < mc ==> #[trigger] widths@[j] == col_width(rv, j),
            lines_view(out@) == start + table_body(rv, pfx@, r3 as nat),
        decreases nr - r3,
    {
        let style = if r3 == 0 { Style::TableHeader } else { Style::Body };
        let mut spans: Vec<Span> = Vec::new();
        push_span(&mut spans, pfx, Style::Body);
        let row = &rows[r3];
        proof {
            lemma_max_cols_bound(rv, r3 as int);
        }
        let mut ci: usize = 0;
        while ci < row.len()
            invariant
                ci <= row@.len() <= mc,
                rv == rows_view(rows@),
                r3 < rows@.len(),
                *row == rows@[r3 as int],
                mc == max_cols(rv),
                mc >= 1,
                widths@.len() == mc,
                forall|j: int| 0 <= j < mc ==> #[trigger] widths@[j] == col_width(rv, j),
                spans_view(spans@) == seq![(pfx@, Style::Body)] + cell_spans(rv, rv[r3 as int], style, ci as nat),
            decreases row.len() - ci,
        {
            let padded = pad_right_chars(row[ci].as_slice(), widths[ci]);
            let a = lit_cat(" ", padded.as_slice());
            let b = chars_of(" ");
            let cell = cat(a.as_slice(), b.as_slice());
            let ghost before = spans_view(spans@);
            push_span(&mut spans, cell.as_slice(), style);
            if ci < mc - 1 {
                let bar = chars_of(" │ ");
                push_span(&mut spans, bar.as_slice(), Style::Separator);
            }
            assert(rv[r3 as int][ci as int] == row@[ci as int]@);
            assert(spans_view(spans@) =~= seq![(pfx@, Style::Body)] + cell_spans(rv, rv[r3 as int], style, (ci + 1) as nat));
            ci += 1;
        }
        push_line(out, spans);
        if r3 == 0 && nr > 1 {
            let mut rs: Vec<Span> = Vec::new();
            push_span(&mut rs, pfx, Style::Dim);
            let mut cj: usize = 0;
            while cj < mc
                invariant
                    cj <= mc,
                    mc == max_cols(rv),
                    mc >= 1,
                    widths@.len() == mc,
                    forall|j: int| 0 <= j < mc ==> #[trigger] widths@[j] == col_width(rv, j),
                    spans_view(rs@) == seq![(pfx@, Style::Dim)] + rule_spans(rv, cj as nat),
                decreases mc - cj,
            {
                let dashes = repeat_chars("─", widths[cj]);
                let a = lit_cat(" ", dashes.as_slice());
                let b = chars_of(" ");
                let seg = cat(a.as_slice(), b.as_slice());
                push_span(&mut rs, seg.as_slice(), Style::Separator);
                if cj < mc - 1 {
                    let cross = chars_of(" ┼ ");
                    push_span(&mut rs, cross.as_slice(), Style::Separator);
                }
                assert(spans_view(rs@) =~= seq![(pfx@, Style::Dim)] + rule_spans(rv, (cj + 1) as nat));
                cj += 1;
            }
            push_line(out, rs);
        }
        assert(lines_view(out@) =~= start + table_body(rv, pfx@, (r3 + 1) as nat));
        r3 += 1;
    }
    push_empty(out);
    assert(lines_view(out@) =~= lines_view(old(out)@) + table_lines(node_view(*table), pfx@));
}

/// No row is longer than the longest row.
proof fn lemma_max_cols_bound(rows: Seq<Seq<Seq<char>>>, r: int)
    requires
        0 <= r < rows.len(),
    ensures
        rows[r].len() <= max_cols(rows),
    decreases rows.len(),
{
    if r < rows.len() - 1 {
        lemma_max_cols_bound(rows.drop_last(), r);
    }
}

/// When some row has cells the longest row is not empty.
proof fn lemma_not_all_empty(rows: Seq<Seq<Seq<char>>>)
    requires
        max_cols(rows) > 0,
    ensures
        rows.len() > 0,
        !all_rows_empty(rows),
    decreases rows.len(),
{
    if rows.len() > 0 {
        if rows.last().len() == 0 {
            lemma_not_all_empty(rows.drop_last());
            let k = choose|k: int| 0 <= k < rows.drop_last().len() && (#[trigger] rows.drop_last()[k]).len() != 0;
            assert(rows[k] == rows.drop_last()[k]);
        } else {
            assert(rows[rows.len() - 1].len() != 0);
        }
    }
}

/// All cells, row after row.
fn flatten_rows(rows: &Vec<Vec<Vec<char>>>) -> (r: Vec<Vec<char>>)
    ensures
        char_views(r@) == all_cells(rows_view(rows@)),
{
    let ghost rv = rows_view(rows@);
    let mut out: Vec<Vec<char>> = Vec::new();
    let mut i: usize = 0;
    while i < rows.len()
        invariant
            i <= rows@.len(),
            rv == rows_view(rows@),
            char_views(out@) == all_cells(rv.take(i as int)),
        decreases rows.len() - i,
    {
        assert(rv.take(i + 1 as int).drop_last() =~= rv.take(i as int));
        let ghost before = char_views(out@);
        let mut j: usize = 0;
        while j < rows[i].len()
            invariant
                j <= rows@[i as int]@.len(),
                i < rows@.len(),
                char_views(out@) == before + char_views(rows@[i as int]@).take(j as int),
            decreases rows@[i as int]@.len() - j,
        {
            let ghost mid = char_views(out@);
            out.push(rows[i][j].clone());
            assert(char_views(out@) =~= mid.push(rows@[i as int]@[j as int]@));
            j += 1;
            assert(char_views(out@) =~= before + char_views(rows@[i as int]@).take(j as int));
        }
        assert(char_views(rows@[i as int]@).take(j as int) =~= rv[i as int]);
        i += 1;
    }
    assert(rv.take(i as int) =~= rv);
    out
}

// ── Block content ──────────────────────────────────────────────────────────

/// Elements that hold no readable content; they are skipped with all they
/// contain.
pub open spec fn skipped_tag(name: Seq<char>) -> bool {
    name == "script"@ || name == "style"@ || name == "noscript"@ || name == "iframe"@
        || name == "svg"@ || name == "canvas"@ || name == "nav"@ || name == "footer"@
        || name == "header"@ || name == "aside"@
}

/// Headings of any level.
pub open spec fn heading_tag(name: Seq<char>) -> bool {
    name == "h1"@ || name == "h2"@ || name == "h3"@ || name == "h4"@ || name == "h5"@
        || name == "h6"@
}

/// Elements whose children are drawn one after another, in place.
pub open spec fn container_tag(name: Seq<char>) -> bool {
    name == "body"@ || name == "div"@ || name == "section"@ || name == "article"@
        || name == "main"@ || name == "span"@ || name == "form"@ || name == "li"@
        || name == "td"@ || name == "th"@
}

/// A horizontal rule of forty heavy box characters.
pub open spec fn rule_text() -> Seq<char> {
    "  "@ + repeat("━"@, 40) + " "@
}

/// One line of the prefix and the text, when the text is not empty.
pub open spec fn text_line_if(pfx: Seq<char>, text: Seq<char>, style: Style) -> Seq<LineV> {
    if text.len() > 0 {
        seq![seq![(pfx + text, style)]]
    } else {
        seq![]
    }
}

/// The smaller of two numbers.
pub open spec fn nat_min(a: nat, b: nat) -> nat {
    if a <= b {
        a
    } else {
        b
    }
}

/// A heading: an empty line, the text in the heading's style, for levels 1
/// and 2 a rule as long as the text (at most 60), and an empty line. Nothing
/// for an empty heading.
pub open spec fn heading_lines(name: Seq<char>, text: Seq<char>, pfx: Seq<char>) -> Seq<LineV> {
    if text.len() == 0 {
        seq![]
    } else {
        let style = if name == "h1"@ {
            Style::H1
        } else if name == "h2"@ {
            Style::H2
        } else {
            Style::H3
        };
        let rule = repeat("─"@, nat_min(text.len(), 60));
        let under = if name == "h1"@ {
            seq![seq![(pfx + rule, Style::RuleH1)]]
        } else if name == "h2"@ {
            seq![seq![(pfx + rule, Style::RuleH2)]]
        } else {
            seq![]
        };
        seq![seq![], seq![(pfx + text, style)]] + under + seq![seq![]]
    }
}

/// A paragraph: the prefix and the inline pieces on one line, then an empty
/// line; nothing when the line holds no text but the prefix.
pub open spec fn paragraph_lines(pfx: Seq<char>, inline: LineV) -> Seq<LineV> {
    let spans = seq![(pfx, Style::Body)] + inline;
    let tt = trim(line_text(spans));
    if tt.len() > 0 && tt != pfx {
        seq![spans, seq![]]
    } else {
        seq![]
    }
}

/// A link on a line of its own: its text (or its target when it has no
/// text), at most 80 characters, in brackets. A link that leads nowhere is
/// drawn as plain text.
pub open spec fn anchor_lines(href: Seq<char>, text: Seq<char>, pfx: Seq<char>) -> Seq<LineV> {
    if real_target(href) {
        let display = if text.len() == 0 {
            href
        } else {
            text
        };
        seq![seq![(pfx, Style::Body), ("["@ + take_chars(display, 80) + "]"@, Style::Link)]]
    } else {
        text_line_if(pfx, text, Style::Body)
    }
}

/// The bullet of a list item: its number and a dot in an ordered list, a dot
/// otherwise.
pub open spec fn bullet(ordered: bool, idx: nat) -> Seq<char> {
    if ordered {
        decimal(idx) + "."@
    } else {
        "•"@
    }
}

/// The lines of the items among a list's children, and how many items there
/// were. Each `li` child counts; one with text gets a line.
pub open spec fn list_scan(kids: Seq<Tree>, ordered: bool, pfx: Seq<char>) -> (Seq<LineV>, nat)
    decreases kids.len(),
{
    if kids.len() == 0 {
        (seq![], 0)
    } else {
        let (ls, n) = list_scan(kids.drop_last(), ordered, pfx);
        let k = kids.last();
        if tree_name(k) == "li"@ {
            let idx = n + 1;
            (ls + text_line_if(pfx + "  "@ + bullet(ordered, idx) + "  "@, node_text(k), Style::Body), idx)
        } else {
            (ls, n)
        }
    }
}

/// A list: its items, then an empty line when it had any.
pub open spec fn list_lines(kids: Seq<Tree>, ordered: bool, pfx: Seq<char>) -> Seq<LineV> {
    let (ls, n) = list_scan(kids, ordered, pfx);
    if n > 0 {
        ls + seq![seq![]]
    } else {
        ls
    }
}

/// The quoted lines, each trimmed; blank ones are left out.
pub open spec fn quote_scan(ls: Seq<Seq<char>>, pfx: Seq<char>) -> Seq<LineV>
    decreases ls.len(),
{
    if ls.len() == 0 {
        seq![]
    } else {
        quote_scan(ls.drop_last(), pfx) + text_line_if(pfx + "  ▎ "@, trim(ls.last()), Style::Quote)
    }
}

/// A block quote: each non-blank line of its text behind a bar, then an
/// empty line.
pub open spec fn quote_lines(text: Seq<char>, pfx: Seq<char>) -> Seq<LineV> {
    if text.len() == 0 {
        seq![]
    } else {
        quote_scan(text_lines(text), pfx) + seq![seq![]]
    }
}

/// The number in front of line `i` of a code block: right-aligned in three
/// places and a space, when the block has more than one line.
pub open spec fn code_number(i: nat, numbered: bool) -> Seq<char> {
    if numbered {
        pad_left(decimal(i + 1), 3) + " "@
    } else {
        seq![]
    }
}

/// The first `n` lines of a code block.
pub open spec fn pre_scan(ls: Seq<Seq<char>>, n: nat, numbered: bool, pfx: Seq<char>) -> Seq<LineV>
    decreases n,
{
    if n == 0 {
        seq![]
    } else {
        let i = (n - 1) as nat;
        pre_scan(ls, i, numbered, pfx) + seq![seq![(pfx + "  "@ + code_number(i, numbered) + ls[i as int], Style::Code)]]
    }
}

/// A code block: its lines as they are, numbered when there are several,
/// then an empty line.
pub open spec fn pre_lines(code: Seq<char>, pfx: Seq<char>) -> Seq<LineV> {
    if code.len() == 0 {
        seq![]
    } else {
        let ls = text_lines(code);
        pre_scan(ls, ls.len(), ls.len() > 1, pfx) + seq![seq![]]
    }
}

/// An image: its description and its address.
pub open spec fn image_lines(alt: Seq<char>, src: Seq<char>, pfx: Seq<char>) -> Seq<LineV> {
    seq![seq![(pfx + "🖼  "@ + alt + " ("@ + src + ")"@, Style::Image)]]
}

/// Whether one of the trees is an element.
pub open spec fn has_element(ts: Seq<Tree>) -> bool {
    exists|i: int| 0 <= i < ts.len() && (#[trigger] ts[i]) is Elem
}

/// The lines of an element of the body. Non-content elements are skipped;
/// line breaks and rules become lines of their own; headings, paragraphs,
/// links, strong and emphasised text, lists, quotes, code, images and tables
/// have their own form; containers draw their children; any other element
/// draws its element children, or its text when it has none.
pub open spec fn node_lines(t: Tree, pfx: Seq<char>) -> Seq<LineV>
    decreases t, 0nat,
{
    match t {
        Tree::Elem { name, attrs, kids } => {
            if skipped_tag(name) {
                seq![]
            } else if name == "br"@ {
                seq![seq![]]
            } else if name == "hr"@ {
                seq![seq![(rule_text(), Style::Separator)]]
            } else if heading_tag(name) {
                heading_lines(name, node_text(t), pfx)
            } else if name == "p"@ {
                paragraph_lines(pfx, inline_of(kids))
            } else if name == "a"@ {
                anchor_lines(or_default(attr_of(attrs, "href"@), seq![]), node_text(t), pfx)
            } else if name == "b"@ || name == "strong"@ {
                text_line_if(pfx, node_text(t), Style::Bright)
            } else if name == "i"@ || name == "em"@ {
                text_line_if(pfx, node_text(t), Style::Italic)
            } else if name == "ul"@ || name == "ol"@ {
                list_lines(kids, name == "ol"@, pfx)
            } else if name == "blockquote"@ {
                quote_lines(node_text(t), pfx)
            } else if name == "pre"@ {
                pre_lines(text_of(t), pfx)
            } else if name == "code"@ {
                text_line_if(pfx, node_text(t), Style::Code)
            } else if name == "img"@ {
                image_lines(
                    or_default(attr_of(attrs, "alt"@), "[image]"@),
                    or_default(attr_of(attrs, "src"@), seq![]),
                    pfx,
                )
            } else if name == "table"@ {
                table_lines(t, pfx)
            } else if container_tag(name) || has_element(kids) {
                kids_lines(kids, pfx)
            } else {
                text_line_if(pfx, node_text(t), Style::Body)
            }
        },
        _ => seq![],
    }
}

/// The lines of a sequence of children, in order; only elements draw lines.
pub open spec fn kids_lines(ts: Seq<Tree>, pfx: Seq<char>) -> Seq<LineV>
    decreases ts, 1nat,
{
    if ts.len() == 0 {
        seq![]
    } else {
        kids_lines(ts.drop_last(), pfx) + node_lines(ts.last(), pfx)
    }
}

/// Appends a line of the prefix and the text, when the text is not empty.
fn push_text_if(out: &mut Vec<Line>, pfx: &[char], text: &[char], style: Style)
    ensures
        lines_view(final(out)@) == lines_view(old(out)@) + text_line_if(pfx@, text@, style),
{
    if text.len() > 0 {
        let line = cat(pfx, text);
        push_text(out, line.as_slice(), style);
        assert(lines_view(out@) =~= lines_view(old(out)@) + text_line_if(pfx@, text@, style));
    } else {
        assert(lines_view(out@) =~= lines_view(old(out)@) + text_line_if(pfx@, text@, style));
    }
}

/// Appends the lines of a heading.
fn render_heading(name: &[char], text: &[char], pfx: &[char], out: &mut Vec<Line>)
    ensures
        lines_view(final(out)@) == lines_view(old(out)@) + heading_lines(name@, text@, pfx@),
{
    if text.len() == 0 {
        assert(lines_view(out@) =~= lines_view(old(out)@) + heading_lines(name@, text@, pfx@));
        return;
    }
    let h1 = is_str(name, "h1");
    let h2 = is_str(name, "h2");
    let style = if h1 {
        Style::H1
    } else if h2 {
        Style::H2
    } else {
        Style::H3
    };
    push_empty(out);
    let head = cat(pfx, text);
    push_text(out, head.as_slice(), style);
    if h1 || h2 {
        let n = if text.len() <= 60 { text.len() } else { 60 };
        let dashes = repeat_chars("─", n);
        let rule = cat(pfx, dashes.as_slice());
        push_text(out, rule.as_slice(), if h1 { Style::RuleH1 } else { Style::RuleH2 });
    }
    push_empty(out);
    assert(lines_view(out@) =~= lines_view(old(out)@) + heading_lines(name@, text@, pfx@));
}

/// Appends the lines of a link of its own.
fn render_anchor(href: &[char], text: &[char], pfx: &[char], out: &mut Vec<Line>)
    ensures
        lines_view(final(out)@) == lines_view(old(out)@) + anchor_lines(href@, text@, pfx@),
{
    if href.len() > 0 && not_fragment_or_script(href) {
        let display: &[char] = if text.len() == 0 { href } else { text };
        let shown = take_chars_exec(display, 80);
        let a = lit_cat("[", shown.as_slice());
        let b = chars_of("]");
        let label = cat(a.as_slice(), b.as_slice());
        let mut spans: Vec<Span> = Vec::new();
        push_span(&mut spans, pfx, Style::Body);
        push_span(&mut spans, label.as_slice(), Style::Link);
        assert(spans_view(spans@) =~= seq![(pfx@, Style::Body), ("["@ + take_chars(display@, 80) + "]"@, Style::Link)]);
        push_line(out, spans);
        assert(lines_view(out@) =~= lines_view(old(out)@) + anchor_lines(href@, text@, pfx@));
    } else {
        push_text_if(out, pfx, text, Style::Body);
    }
}

/// Appends the line of an image.
fn render_image(alt: &[char], src: &[char], pfx: &[char], out: &mut Vec<Line>)
    ensures
        lines_view(final(out)@) == lines_view(old(out)@) + image_lines(alt@, src@, pfx@),
{
    let a = lit_cat("🖼  ", alt);
    let b = lit_cat(" (", src);
    let c = chars_of(")");
    let line = cat(cat(cat(pfx, a.as_slice()).as_slice(), b.as_slice()).as_slice(), c.as_slice());
    assert(line@ =~= pfx@ + "🖼  "@ + alt@ + " ("@ + src@ + ")"@);
    push_text(out, line.as_slice(), Style::Image);
    assert(lines_view(out@) =~= lines_view(old(out)@) + image_lines(alt@, src@, pfx@));
}

/// Appends the lines of a block quote.
fn render_quote(text: &[char], pfx: &[char], out: &mut Vec<Line>)
    ensures
        lines_view(final(out)@) == lines_view(old(out)@) + quote_lines(text@, pfx@),
{
    if text.len() == 0 {
        assert(lines_view(out@) =~= lines_view(old(out)@) + quote_lines(text@, pfx@));
        return;
    }
    let ls = text_lines_exec(text);
    let ghost lv = char_views(ls@);
    let bar = lit_cat("  ▎ ", &[]);
    let lead = cat(pfx, bar.as_slice());
    assert(lead@ =~= pfx@ + "  ▎ "@);
    let ghost start = lines_view(out@);
    let mut i: usize = 0;
    while i < ls.len()
        invariant
            i <= ls@.len(),
            lv == char_views(ls@),
            lead@ == pfx@ + "  ▎ "@,
            lines_view(out@) == start + quote_scan(lv.take(i as int), pfx@),
        decreases ls.len() - i,
    {
        assert(lv.take(i + 1 as int).drop_last() =~= lv.take(i as int));
        let t = trim_chars(ls[i].as_slice());
        push_text_if(out, lead.as_slice(), t.as_slice(), Style::Quote);
        assert(lines_view(out@) =~= start + quote_scan(lv.take(i + 1 as int), pfx@));
        i += 1;
    }
    assert(lv.take(i as int) =~= lv);
    push_empty(out);
    assert(lines_view(out@) =~= lines_view(old(out)@) + quote_lines(text@, pfx@));
}

/// Appends the lines of a code block.
fn render_pre(code: &[char], pfx: &[char], out: &mut Vec<Line>)
    ensures
        lines_view(final(out)@) == lines_view(old(out)@) + pre_lines(code@, pfx@),
{
    if code.len() == 0 {
        assert(lines_view(out@) =~= lines_view(old(out)@) + pre_lines(code@, pfx@));
        return;
    }
    let ls = text_lines_exec(code);
    let ghost lv = char_views(ls@);
    let numbered = ls.len() > 1;
    let lead = lit_cat("  ", &[]);
    let lead = cat(pfx, lead.as_slice());
    assert(lead@ =~= pfx@ + "  "@);
    let ghost start = lines_view(out@);
    let mut i: usize = 0;
    while i < ls.len()
        invariant
            i <= ls@.len() == lv.len(),
            lv == char_views(ls@),
            numbered == (lv.len() > 1),
            lead@ == pfx@ + "  "@,
            lines_view(out@) == start + pre_scan(lv, i as nat, numbered, pfx@),
        decreases ls.len() - i,
    {
        let mut num: Vec<char> = Vec::new();
        if numbered {
            let mut d: Vec<char> = Vec::new();
            crate::display::push_decimal(&mut d, i + 1);
            assert(d@ =~= decimal((i + 1) as nat));
            num = pad_left_chars(d.as_slice(), 3);
            num.push(' ');
            proof {
                reveal_strlit(" ");
            }
            assert(num@ =~= code_number(i as nat, numbered));
        } else {
            assert(num@ =~= code_number(i as nat, numbered));
        }
        let line = cat(cat(lead.as_slice(), num.as_slice()).as_slice(), ls[i].as_slice());
        assert(line@ =~= pfx@ + "  "@ + code_number(i as nat, numbered) + lv[i as int]);
        push_text(out, line.as_slice(), Style::Code);
        assert(lines_view(out@) =~= start + pre_scan(lv, (i + 1) as nat, numbered, pfx@));
        i += 1;
    }
    push_empty(out);
    assert(lines_view(out@) =~= lines_view(old(out)@) + pre_lines(code@, pfx@));
}

/// Appends the lines of a paragraph.
fn render_paragraph(e: &Element, pfx: &[char], out: &mut Vec<Line>)
    ensures
        lines_view(final(out)@) == lines_view(old(out)@) + paragraph_lines(pfx@, inline_of(kids_view(e.children@))),
{
    let mut spans: Vec<Span> = Vec::new();
    push_span(&mut spans, pfx, Style::Body);
    inline_kids(e, &mut spans);
    let ghost sv = spans_view(spans@);
    assert(sv == seq![(pfx@, Style::Body)] + inline_of(kids_view(e.children@)));
    let line = Line { spans };
    let all = line.text();
    let all = chars_of(all.as_str());
    let tt = trim_chars(all.as_slice());
    assert(tt@ == trim(line_text(sv)));
    if tt.len() > 0 && !chars_equal(tt.as_slice(), pfx) {
        push_line(out, line.spans);
        push_empty(out);
    }
    assert(lines_view(out@) =~= lines_view(old(out)@) + paragraph_lines(pfx@, inline_of(kids_view(e.children@))));
}

/// Appends the lines of a list.
fn render_list(e: &Element, ordered: bool, pfx: &[char], out: &mut Vec<Line>)
    ensures
        lines_view(final(out)@) == lines_view(old(out)@) + list_lines(kids_view(e.children@), ordered, pfx@),
{
    let ghost kids = kids_view(e.children@);
    proof {
        lemma_kids_view(e.children@);
    }
    let ghost start = lines_view(out@);
    let lead = lit_cat("  ", &[]);
    let lead = cat(pfx, lead.as_slice());
    assert(lead@ =~= pfx@ + "  "@);
    let mut idx: usize = 0;
    let mut k: usize = 0;
    while k < e.children.len()
        invariant
            k <= e.children@.len() == kids.len(),
            kids == kids_view(e.children@),
            lead@ == pfx@ + "  "@,
            idx <= k,
            lines_view(out@) == start + list_scan(kids.take(k as int), ordered, pfx@).0,
            idx == list_scan(kids.take(k as int), ordered, pfx@).1,
        decreases e.children.len() - k,
    {
        proof {
            lemma_kids_view(e.children@);
            reveal_strlit("li");
            reveal_strlit("•");
            reveal_strlit(".");
        }
        assert(kids[k as int] == node_view(e.children@[k as int]));
        assert(kids.take(k + 1 as int).drop_last() =~= kids.take(k as int));
        let child = &e.children[k];
        let is_li = match child {
            DomNode::Element(c) => {
                let nm = chars_of(c.name.as_str());
                assert(tree_name(node_view(*child)) == c.name@);
                is_str(nm.as_slice(), "li")
            },
            _ => {
                assert(tree_name(node_view(*child)) == Seq::<char>::empty());
                assert("li"@.len() == 2);
                false
            },
        };
        assert(is_li == (tree_name(kids[k as int]) == "li"@));
        if is_li {
            idx = idx + 1;
            let text = node_text_exec(child);
            let mut b: Vec<char> = Vec::new();
            if ordered {
                crate::display::push_decimal(&mut b, idx);
                b.push('.');
            } else {
                b = chars_of("•");
            }
            assert(b@ =~= bullet(ordered, idx as nat));
            let tail = lit_cat("  ", &[]);
            let head = cat(cat(lead.as_slice(), b.as_slice()).as_slice(), tail.as_slice());
            assert(head@ =~= pfx@ + "  "@ + bullet(ordered, idx as nat) + "  "@);
            push_text_if(out, head.as_slice(), text.as_slice(), Style::Body);
        }
        k += 1;
    }
    assert(kids.take(k as int) =~= kids);
    if idx > 0 {
        push_empty(out);
    }
    assert(lines_view(out@) =~= lines_view(old(out)@) + list_lines(kids, ordered, pfx@));
}

/// Whether an element has an element among its children.
fn has_element_child(e: &Element) -> (b: bool)
    ensures
        b == has_element(kids_view(e.children@)),
{
    let ghost kids = kids_view(e.children@);
    proof {
        lemma_kids_view(e.children@);
    }
    let mut k: usize = 0;
    while k < e.children.len()
        invariant
            k <= e.children@.len() == kids.len(),
            kids == kids_view(e.children@),
            forall|j: int| 0 <= j < k ==> !((#[trigger] kids[j]) is Elem),
        decreases e.children.len() - k,
    {
        proof {
            lemma_kids_view(e.children@);
        }
        assert(kids[k as int] == node_view(e.children@[k as int]));
        if let DomNode::Element(_) = &e.children[k] {
            return true;
        }
        k += 1;
    }
    false
}

/// Whether the element name is one of the non-content elements.
fn is_skipped_tag(name: &[char]) -> (b: bool)
    ensures
        b == skipped_tag(name@),
{
    is_str(name, "script") || is_str(name, "style") || is_str(name, "noscript") || is_str(name, "iframe")
        || is_str(name, "svg") || is_str(name, "canvas") || is_str(name, "nav") || is_str(name, "footer")
        || is_str(name, "header") || is_str(name, "aside")
}

/// Whether the element name is a heading.
fn is_heading_tag(name: &[char]) -> (b: bool)
    ensures
        b == heading_tag(name@),
{
    is_str(name, "h1") || is_str(name, "h2") || is_str(name, "h3") || is_str(name, "h4")
        || is_str(name, "h5") || is_str(name, "h6")
}

/// Whether the element name is one of the containers.
fn is_container_tag(name: &[char]) -> (b: bool)
    ensures
        b == container_tag(name@),
{
    is_str(name, "body") || is_str(name, "div") || is_str(name, "section") || is_str(name, "article")
        || is_str(name, "main") || is_str(name, "span") || is_str(name, "form") || is_str(name, "li")
        || is_str(name, "td") || is_str(name, "th")
}

/// Appends the lines of an element of the body.
fn render_node(n: &DomNode, pfx: &[char], out: &mut Vec<Line>)
    ensures
        lines_view(final(out)@) == lines_view(old(out)@) + node_lines(node_view(*n), pfx@),
    decreases n,
{
    match n {
        DomNode::Element(e) => {
            let ghost t = node_view(*n);
            assert(t == Tree::Elem { name: e.name@, attrs: crate::dom::attr_views(e.attrs@), kids: kids_view(e.children@) });
            proof {
                reveal_strlit("");
            }
            let name = chars_of(e.name.as_str());
            let name = name.as_slice();
            if is_skipped_tag(name) {
                assert(lines_view(out@) =~= lines_view(old(out)@) + node_lines(t, pfx@));
            } else if is_str(name, "br") {
                push_empty(out);
                assert(lines_view(out@) =~= lines_view(old(out)@) + node_lines(t, pfx@));
            } else if is_str(name, "hr") {
                let dashes = repeat_chars("━", 40);
                let a = lit_cat("  ", dashes.as_slice());
                let b = chars_of(" ");
                let r = cat(a.as_slice(), b.as_slice());
                assert(r@ =~= rule_text());
                push_text(out, r.as_slice(), Style::Separator);
                assert(lines_view(out@) =~= lines_view(old(out)@) + node_lines(t, pfx@));
            } else if is_heading_tag(name) {
                let text = node_text_exec(n);
                render_heading(name, text.as_slice(), pfx, out);
            } else if is_str(name, "p") {
                render_paragraph(e, pfx, out);
            } else if is_str(name, "a") {
                let href = attr_or(n, "href", "");
                let text = node_text_exec(n);
                render_anchor(href.as_slice(), text.as_slice(), pfx, out);
            } else if is_str(name, "b") || is_str(name, "strong") {
                let text = node_text_exec(n);
                push_text_if(out, pfx, text.as_slice(), Style::Bright);
            } else if is_str(name, "i") || is_str(name, "em") {
                let text = node_text_exec(n);
                push_text_if(out, pfx, text.as_slice(), Style::Italic);
            } else if is_str(name, "ul") || is_str(name, "ol") {
                render_list(e, is_str(name, "ol"), pfx, out);
            } else if is_str(name, "blockquote") {
                let text = node_text_exec(n);
                render_quote(text.as_slice(), pfx, out);
            } else if is_str(name, "pre") {
                let code = text_of_node(n);
                render_pre(code.as_slice(), pfx, out);
            } else if is_str(name, "code") {
                let text = node_text_exec(n);
                push_text_if(out, pfx, text.as_slice(), Style::Code);
            } else if is_str(name, "img") {
                let alt = attr_or(n, "alt", "[image]");
                let src = attr_or(n, "src", "");
                render_image(alt.as_slice(), src.as_slice(), pfx, out);
            } else if is_str(name, "table") {
                render_table(n, pfx, out);
            } else if is_container_tag(name) || has_element_child(e) {
                render_kids(e, pfx, out);
            } else {
                let text = node_text_exec(n);
                push_text_if(out, pfx, text.as_slice(), Style::Body);
            }
        },
        _ => {
            assert(lines_view(out@) =~= lines_view(old(out)@) + node_lines(node_view(*n), pfx@));
        },
    }
}

/// Appends the lines of an element's children, in order.
fn render_kids(e: &Element, pfx: &[char], out: &mut Vec<Line>)
    ensures
        lines_view(final(out)@) == lines_view(old(out)@) + kids_lines(kids_view(e.children@), pfx@),
    decreases e,
{
    let ghost kids = kids_view(e.children@);
    proof {
        lemma_kids_view(e.children@);
    }
    let ghost start = lines_view(out@);
    assert(start + kids_lines(kids.take(0), pfx@) =~= start);
    let mut k: usize = 0;
    while k < e.children.len()
        invariant
            k <= e.children@.len() == kids.len(),
            kids == kids_view(e.children@),
            lines_view(out@) == start + kids_lines(kids.take(k as int), pfx@),
        decreases e.children.len() - k,
    {
        proof {
            lemma_kids_view(e.children@);
        }
        assert(kids[k as int] == node_view(e.children@[k as int]));
        assert(kids.take(k + 1 as int).drop_last() =~= kids.take(k as int));
        render_node(&e.children[k], pfx, out);
        assert(start + kids_lines(kids.take(k + 1 as int), pfx@) =~= start + kids_lines(kids.take(k as int), pfx@)
            + node_lines(kids[k as int], pfx@));
        k += 1;
    }
    assert(kids.take(k as int) =~= kids);
}

// ── Title ──────────────────────────────────────────────────────────────────

/// The selector for the Open Graph title.
pub open spec fn og_title_sel() -> Seq<SelV> {
    seq![("meta"@, Some("property"@), Some("og:title"@))]
}

/// The selector for one element name.
pub open spec fn tag_sel(tag: Seq<char>) -> Seq<SelV> {
    seq![(tag, None, None)]
}

/// The first non-blank `content` of the elements, trimmed.
pub open spec fn first_content(ms: Seq<Tree>) -> Option<Seq<char>>
    decreases ms.len(),
{
    if ms.len() == 0 {
        None
    } else {
        let t = trim(or_default(tree_attr(ms[0], "content"@), seq![]));
        if tree_attr(ms[0], "content"@) is Some && t.len() > 0 {
            Some(t)
        } else {
            first_content(ms.drop_first())
        }
    }
}

/// The first element text that is neither blank nor a lone no-break space,
/// trimmed and cut to 200 characters.
pub open spec fn first_title_text(ts: Seq<Tree>) -> Option<Seq<char>>
    decreases ts.len(),
{
    if ts.len() == 0 {
        None
    } else {
        let t = trim(text_of(ts[0]));
        if t.len() > 0 && t != seq!['\u{a0}'] {
            Some(take_chars(t, 200))
        } else {
            first_title_text(ts.drop_first())
        }
    }
}

/// The first element text longer than three bytes, trimmed and cut to 200
/// characters.
pub open spec fn first_heading_text(ts: Seq<Tree>) -> Option<Seq<char>>
    decreases ts.len(),
{
    if ts.len() == 0 {
        None
    } else {
        let t = trim(text_of(ts[0]));
        if encode_utf8(t).len() > 3 {
            Some(take_chars(t, 200))
        } else {
            first_heading_text(ts.drop_first())
        }
    }
}

/// The title of a page: its Open Graph title, else its `title` element,
/// else its first substantial `h1` or `h2`, else the page address.
pub open spec fn page_title(doc: Tree, url: Seq<char>) -> Seq<char> {
    match first_content(select(doc, og_title_sel())) {
        Some(t) => t,
        None => match first_title_text(select(doc, tag_sel("title"@))) {
            Some(t) => t,
            None => match first_heading_text(select(doc, tag_sel("h1"@))) {
                Some(t) => t,
                None => match first_heading_text(select(doc, tag_sel("h2"@))) {
                    Some(t) => t,
                    None => url,
                },
            },
        },
    }
}

/// A selector list of one selector for an element name.
fn tag_selector(tag: &'static str) -> (v: Vec<SimpleSel>)
    ensures
        sel_views(v@) == tag_sel(tag@),
{
    let mut v: Vec<SimpleSel> = Vec::new();
    v.push(crate::dom::sel_tag(tag));
    assert(sel_views(v@) =~= tag_sel(tag@));
    v
}

/// The first non-blank `content` of the nodes, trimmed.
pub fn find_content(ms: &Vec<&DomNode>) -> (r: Option<Vec<char>>)
    ensures
        match r {
            Some(t) => first_content(crate::dom::ref_views(ms@)) == Some(t@),
            None => first_content(crate::dom::ref_views(ms@)) is None,
        },
{
    let ghost all = crate::dom::ref_views(ms@);
    let mut i: usize = 0;
    assert(all.skip(0) =~= all);
    while i < ms.len()
        invariant
            i <= ms@.len() == all.len(),
            all == crate::dom::ref_views(ms@),
            first_content(all) == first_content(all.skip(i as int)),
        decreases ms.len() - i,
    {
        let ghost rest = all.skip(i as int);
        assert(rest[0] == node_view(*ms@[i as int]));
        assert(rest.drop_first() =~= all.skip(i + 1));
        if let Some(v) = node_attr(ms[i], "content") {
            let c = chars_of(v.as_str());
            let t = trim_chars(c.as_slice());
            if t.len() > 0 {
                return Some(t);
            }
        }
        i += 1;
    }
    None
}

/// The first element text that is neither blank nor a lone no-break space,
/// trimmed and cut to 200 characters.
fn find_title_text(ts: &Vec<&DomNode>) -> (r: Option<Vec<char>>)
    ensures
        match r {
            Some(t) => first_title_text(crate::dom::ref_views(ts@)) == Some(t@),
            None => first_title_text(crate::dom::ref_views(ts@)) is None,
        },
{
    let ghost all = crate::dom::ref_views(ts@);
    let mut i: usize = 0;
    assert(all.skip(0) =~= all);
    while i < ts.len()
        invariant
            i <= ts@.len() == all.len(),
            all == crate::dom::ref_views(ts@),
            first_title_text(all) == first_title_text(all.skip(i as int)),
        decreases ts.len() - i,
    {
        let ghost rest = all.skip(i as int);
        assert(rest[0] == node_view(*ts@[i as int]));
        assert(rest.drop_first() =~= all.skip(i + 1));
        let raw = text_of_node(ts[i]);
        let t = trim_chars(raw.as_slice());
        let nbsp = t.len() == 1 && t[0] == '\u{a0}';
        if nbsp {
            assert(t@ =~= seq!['\u{a0}']);
        }
        if t.len() > 0 && !nbsp {
            return Some(take_chars_exec(t.as_slice(), 200));
        }
        i += 1;
    }
    None
}

/// The first element text longer than three bytes, trimmed and cut to 200
/// characters.
fn find_heading_text(ts: &Vec<&DomNode>) -> (r: Option<Vec<char>>)
    ensures
        match r {
            Some(t) => first_heading_text(crate::dom::ref_views(ts@)) == Some(t@),
            None => first_heading_text(crate::dom::ref_views(ts@)) is None,
        },
{
    let ghost all = crate::dom::ref_views(ts@);
    let mut i: usize = 0;
    assert(all.skip(0) =~= all);
    while i < ts.len()
        invariant
            i <= ts@.len() == all.len(),
            all == crate::dom::ref_views(ts@),
            first_heading_text(all) == first_heading_text(all.skip(i as int)),
        decreases ts.len() - i,
    {
        let ghost rest = all.skip(i as int);
        assert(rest[0] == node_view(*ts@[i as int]));
        assert(rest.drop_first() =~= all.skip(i + 1));
        let raw = text_of_node(ts[i]);
        let t = trim_chars(raw.as_slice());
        if crate::text::utf8_longer_than(t.as_slice(), 3) {
            return Some(take_chars_exec(t.as_slice(), 200));
        }
        i += 1;
    }
    None
}

/// The title of a page.
fn extract_title(doc: &DomNode, url: &str) -> (r: Vec<char>)
    ensures
        r@ == page_title(node_view(*doc), url@),
{
    let mut og: Vec<SimpleSel> = Vec::new();
    og.push(crate::dom::sel_attr_eq("meta", "property", "og:title"));
    assert(sel_views(og@) =~= og_title_sel());
    let ms = select_nodes(doc, &og);
    if let Some(t) = find_content(&ms) {
        return t;
    }
    let ts = select_nodes(doc, &tag_selector("title"));
    if let Some(t) = find_title_text(&ts) {
        return t;
    }
    let h1 = select_nodes(doc, &tag_selector("h1"));
    if let Some(t) = find_heading_text(&h1) {
        return t;
    }
    let h2 = select_nodes(doc, &tag_selector("h2"));
    if let Some(t) = find_heading_text(&h2) {
        return t;
    }
    chars_of(url)
}

// ── Links ──────────────────────────────────────────────────────────────────

/// What `url::Url::parse` of the base followed by `Url::join` of the
/// reference gives, serialised: the reference resolved against the base, or
/// nothing when either step fails.
pub uninterp spec fn joined_url(base: Seq<char>, rel: Seq<char>) -> Option<Seq<char>>;

/// Resolves a reference against a base address with the `url` crate:
/// `Url::parse(base)`, then `Url::join(rel)` on it, then its serialisation.
/// The contract only names the result (`joined_url`); how a reference is
/// resolved is the crate's, and is not restated here.
#[verifier::external_body]
fn url_join(base: &str, rel: &str) -> (r: Option<String>)
    ensures
        crate::config::opt_view(r) == joined_url(base@, rel@),
{
    match url::Url::parse(base) {
        Ok(b) => match b.join(rel) {
            Ok(u) => Some(u.to_string()),
            Err(_) => None,
        },
        Err(_) => None,
    }
}

/// The text before the first `#`, or all of it.
pub open spec fn cut_at_hash(s: Seq<char>) -> Seq<char>
    decreases s.len(),
{
    if s.len() == 0 {
        seq![]
    } else if s[0] == '#' {
        seq![]
    } else {
        seq![s[0]] + cut_at_hash(s.drop_first())
    }
}

/// A link target resolved against the page address, without its fragment;
/// the reference as it is when it cannot be resolved.
pub open spec fn resolved_link(base: Seq<char>, rel: Seq<char>) -> Seq<char> {
    match joined_url(base, rel) {
        Some(s) => cut_at_hash(s),
        None => rel,
    }
}

/// A link target resolved against the page address, without its fragment.
pub fn resolve_url(base: &str, rel: &str) -> (r: String)
    ensures
        r@ == resolved_link(base@, rel@),
{
    match url_join(base, rel) {
        Some(full) => {
            let c = chars_of(full.as_str());
            let mut out: Vec<char> = Vec::new();
            let mut i: usize = 0;
            assert(c@.skip(0) =~= c@);
            assert(out@ + cut_at_hash(c@) =~= cut_at_hash(c@));
            while i < c.len() && c[i] != '#'
                invariant
                    i <= c@.len(),
                    forall|j: int| 0 <= j < i ==> c@[j] != '#',
                    out@ == c@.take(i as int),
                    cut_at_hash(c@) == out@ + cut_at_hash(c@.skip(i as int)),
                decreases c.len() - i,
            {
                let ghost rest = c@.skip(i as int);
                assert(rest[0] == c@[i as int]);
                assert(rest.drop_first() =~= c@.skip(i + 1));
                let ghost before = out@;
                out.push(c[i]);
                assert(out@ =~= c@.take(i + 1));
                assert(before + cut_at_hash(rest) =~= out@ + cut_at_hash(c@.skip(i + 1)));
                i += 1;
            }
            proof {
                if i < c@.len() {
                    assert(c@.skip(i as int)[0] == '#');
                }
                assert(cut_at_hash(c@.skip(i as int)) =~= Seq::<char>::empty());
                assert(cut_at_hash(c@) =~= out@);
            }
            string_of(out.as_slice())
        },
        None => {
            let c = chars_of(rel);
            string_of(c.as_slice())
        },
    }
}

/// The selector for links with a target.
pub open spec fn link_sel() -> Seq<SelV> {
    seq![("a"@, Some("href"@), None)]
}

/// The links of the elements, in order: target resolved against the page
/// address, label the trimmed text or else the target. Links that lead
/// nowhere are left out, and so is a repeat of a (target, label) pair.
pub open spec fn link_scan(els: Seq<Tree>, base: Seq<char>) -> Seq<(Seq<char>, Seq<char>)>
    decreases els.len(),
{
    if els.len() == 0 {
        seq![]
    } else {
        let prev = link_scan(els.drop_last(), base);
        let el = els.last();
        let href = trim(or_default(tree_attr(el, "href"@), seq![]));
        if !real_target(href) {
            prev
        } else {
            let full = resolved_link(base, href);
            let text = trim(text_of(el));
            let label = if text.len() == 0 {
                href
            } else {
                text
            };
            if prev.contains((full, label)) {
                prev
            } else {
                prev.push((full, label))
            }
        }
    }
}

/// The links of a page.
pub open spec fn page_links(doc: Tree, base: Seq<char>) -> Seq<(Seq<char>, Seq<char>)> {
    link_scan(select(doc, link_sel()), base)
}

/// No link is listed twice, and every label has text.
pub proof fn lemma_link_scan_distinct(els: Seq<Tree>, base: Seq<char>)
    ensures
        link_scan(els, base).no_duplicates(),
        forall|i: int| 0 <= i < link_scan(els, base).len() ==> (#[trigger] link_scan(els, base)[i]).1.len() > 0,
    decreases els.len(),
{
    if els.len() > 0 {
        lemma_link_scan_distinct(els.drop_last(), base);
    }
}

/// Whether the list holds the pair.
fn links_contain(links: &Vec<(String, String)>, full: &[char], label: &[char]) -> (b: bool)
    ensures
        b == links_view(links@).contains((full@, label@)),
{
    let ghost lv = links_view(links@);
    let mut i: usize = 0;
    while i < links.len()
        invariant
            i <= links@.len(),
            lv == links_view(links@),
            forall|j: int| 0 <= j < i ==> lv[j] != (full@, label@),
        decreases links.len() - i,
    {
        let a = chars_of(links[i].0.as_str());
        let b = chars_of(links[i].1.as_str());
        if chars_equal(a.as_slice(), full) && chars_equal(b.as_slice(), label) {
            assert(lv[i as int] == (full@, label@));
            return true;
        }
        i += 1;
    }
    false
}

/// The links of a page, in document order, each once.
fn extract_links(doc: &DomNode, base: &str) -> (r: Vec<(String, String)>)
    ensures
        links_view(r@) == page_links(node_view(*doc), base@),
{
    let mut sels: Vec<SimpleSel> = Vec::new();
    sels.push(crate::dom::sel_has_attr("a", "href"));
    assert(sel_views(sels@) =~= link_sel());
    let els = select_nodes(doc, &sels);
    let ghost ev = crate::dom::ref_views(els@);
    let mut links: Vec<(String, String)> = Vec::new();
    let mut i: usize = 0;
    while i < els.len()
        invariant
            i <= els@.len() == ev.len(),
            ev == crate::dom::ref_views(els@),
            links_view(links@) == link_scan(ev.take(i as int), base@),
        decreases els.len() - i,
    {
        proof {
            reveal_strlit("");
        }
        assert(ev.take(i + 1 as int).drop_last() =~= ev.take(i as int));
        assert(ev[i as int] == node_view(*els@[i as int]));
        let raw = attr_or(els[i], "href", "");
        let href = trim_chars(raw.as_slice());
        if href.len() > 0 && not_fragment_or_script(href.as_slice()) {
            let hs = string_of(href.as_slice());
            let full = resolve_url(base, hs.as_str());
            let full = chars_of(full.as_str());
            let t = text_of_node(els[i]);
            let text = trim_chars(t.as_slice());
            let label: Vec<char> = if text.len() == 0 { href } else { text };
            if !links_contain(&links, full.as_slice(), label.as_slice()) {
                let ghost before = links_view(links@);
                links.push((string_of(full.as_slice()), string_of(label.as_slice())));
                assert(links_view(links@) =~= before.push((full@, label@)));
            }
        }
        i += 1;
    }
    assert(ev.take(i as int) =~= ev);
    links
}

// ── Body and fallback ──────────────────────────────────────────────────────

/// The lines of the first `body` element that draws any.
pub open spec fn first_body_lines(bodies: Seq<Tree>) -> Seq<LineV>
    decreases bodies.len(),
{
    if bodies.len() == 0 {
        seq![]
    } else {
        let ls = node_lines(bodies[0], seq![]);
        if ls.len() > 0 {
            ls
        } else {
            first_body_lines(bodies.drop_first())
        }
    }
}

/// The lines of a page's body.
pub open spec fn body_lines(doc: Tree) -> Seq<LineV> {
    first_body_lines(select(doc, tag_sel("body"@)))
}

/// The lines of a page's body.
fn render_body(doc: &DomNode) -> (r: Vec<Line>)
    ensures
        lines_view(r@) == body_lines(node_view(*doc)),
{
    let bodies = select_nodes(doc, &tag_selector("body"));
    let ghost bv = crate::dom::ref_views(bodies@);
    let mut i: usize = 0;
    assert(bv.skip(0) =~= bv);
    while i < bodies.len()
        invariant
            i <= bodies@.len() == bv.len(),
            bv == crate::dom::ref_views(bodies@),
            bv == select(node_view(*doc), tag_sel("body"@)),
            first_body_lines(bv) == first_body_lines(bv.skip(i as int)),
        decreases bodies.len() - i,
    {
        let ghost rest = bv.skip(i as int);
        assert(rest[0] == node_view(*bodies@[i as int]));
        assert(rest.drop_first() =~= bv.skip(i + 1));
        let mut lines: Vec<Line> = Vec::new();
        let empty: Vec<char> = Vec::new();
        assert(empty@ =~= Seq::<char>::empty());
        render_node(bodies[i], empty.as_slice(), &mut lines);
        assert(lines_view(lines@) =~= node_lines(rest[0], seq![]));
        if lines.len() > 0 {
            assert(rest.len() > 0);
            assert(first_body_lines(rest) == lines_view(lines@));
            return lines;
        }
        i += 1;
    }
    assert(bv.skip(i as int) =~= Seq::<Tree>::empty());
    let r: Vec<Line> = Vec::new();
    assert(lines_view(r@) =~= Seq::<LineV>::empty());
    r
}

/// The selectors for a page description.
pub open spec fn description_sel() -> Seq<SelV> {
    seq![("meta"@, Some("name"@), Some("description"@)), ("meta"@, Some("property"@), Some("og:description"@))]
}

/// The first non-empty `content`, as it is.
pub open spec fn first_description(ms: Seq<Tree>) -> Option<Seq<char>>
    decreases ms.len(),
{
    if ms.len() == 0 {
        None
    } else {
        match tree_attr(ms[0], "content"@) {
            Some(v) => if v.len() > 0 {
                Some(v)
            } else {
                first_description(ms.drop_first())
            },
            None => first_description(ms.drop_first()),
        }
    }
}

/// The selectors for blocks of text.
pub open spec fn block_sel() -> Seq<SelV> {
    seq![
        ("p"@, None, None),
        ("h1"@, None, None),
        ("h2"@, None, None),
        ("h3"@, None, None),
        ("h4"@, None, None),
        ("li"@, None, None),
        ("blockquote"@, None, None),
        ("pre"@, None, None),
        ("td"@, None, None),
        ("th"@, None, None),
        ("div"@, None, None),
    ]
}

/// The trimmed texts of the elements that are longer than 30 bytes.
pub open spec fn block_texts(els: Seq<Tree>) -> Seq<Seq<char>>
    decreases els.len(),
{
    if els.len() == 0 {
        seq![]
    } else {
        let prev = block_texts(els.drop_last());
        let t = trim(text_of(els.last()));
        if encode_utf8(t).len() > 30 {
            prev.push(t)
        } else {
            prev
        }
    }
}

/// A text cut to 200 characters, with an ellipsis when it was longer.
pub open spec fn shortened(t: Seq<char>, n: nat) -> Seq<char> {
    if t.len() > n {
        t.take(n as int) + "…"@
    } else {
        t
    }
}

/// The lines for the first `n` text blocks: each shortened to 200
/// characters, then an empty line.
pub open spec fn block_lines(ts: Seq<Seq<char>>, n: nat) -> Seq<LineV>
    decreases n,
{
    if n == 0 {
        seq![]
    } else {
        block_lines(ts, (n - 1) as nat) + seq![seq![("  "@ + shortened(ts[n - 1], 200), Style::Body)], seq![]]
    }
}

/// The lines of a page whose body draws nothing: the title, the page
/// description, and up to 15 substantial blocks of text, or a note that the
/// page needs JavaScript when there are none.
pub open spec fn fallback_lines(doc: Tree, title: Seq<char>) -> Seq<LineV> {
    let head = seq![seq![], seq![("  "@ + title, Style::H1)], seq![]];
    let desc = match first_description(select(doc, description_sel())) {
        Some(v) => seq![seq![("  "@ + take_chars(v, 300), Style::Meta)], seq![]],
        None => seq![],
    };
    let ts = take_first(block_texts(select(doc, block_sel())), 15);
    let rest = if ts.len() > 0 {
        block_lines(ts, ts.len())
    } else {
        seq![
            seq![("  ⚡ This page requires JavaScript to display its content."@, Style::Warn)],
            seq![("  Try opening it with headless Chromium or use reader mode."@, Style::Dim)],
            seq![],
        ]
    };
    head + desc + rest
}

/// The first `n` items, or all of them if there are fewer.
pub open spec fn take_first<A>(s: Seq<A>, n: nat) -> Seq<A> {
    if s.len() <= n {
        s
    } else {
        s.take(n as int)
    }
}

/// The description line of a page whose body draws nothing.
fn find_description(ms: &Vec<&DomNode>) -> (r: Option<Vec<char>>)
    ensures
        match r {
            Some(t) => first_description(crate::dom::ref_views(ms@)) == Some(t@),
            None => first_description(crate::dom::ref_views(ms@)) is None,
        },
{
    let ghost all = crate::dom::ref_views(ms@);
    let mut i: usize = 0;
    assert(all.skip(0) =~= all);
    while i < ms.len()
        invariant
            i <= ms@.len() == all.len(),
            all == crate::dom::ref_views(ms@),
            first_description(all) == first_description(all.skip(i as int)),
        decreases ms.len() - i,
    {
        let ghost rest = all.skip(i as int);
        assert(rest[0] == node_view(*ms@[i as int]));
        assert(rest.drop_first() =~= all.skip(i + 1));
        if let Some(v) = node_attr(ms[i], "content") {
            let c = chars_of(v.as_str());
            if c.len() > 0 {
                return Some(c);
            }
        }
        i += 1;
    }
    None
}

/// The text blocks of a page whose body draws nothing.
fn collect_blocks(els: &Vec<&DomNode>) -> (r: Vec<Vec<char>>)
    ensures
        char_views(r@) == block_texts(crate::dom::ref_views(els@)),
{
    let ghost ev = crate::dom::ref_views(els@);
    let mut out: Vec<Vec<char>> = Vec::new();
    let mut i: usize = 0;
    while i < els.len()
        invariant
            i <= els@.len() == ev.len(),
            ev == crate::dom::ref_views(els@),
            char_views(out@) == block_texts(ev.take(i as int)),
        decreases els.len() - i,
    {
        assert(ev.take(i + 1 as int).drop_last() =~= ev.take(i as int));
        assert(ev[i as int] == node_view(*els@[i as int]));
        let raw = text_of_node(els[i]);
        let t = trim_chars(raw.as_slice());
        if crate::text::utf8_longer_than(t.as_slice(), 30) {
            let ghost before = char_views(out@);
            out.push(t);
            assert(char_views(out@) =~= before.push(out@.last()@));
        }
        i += 1;
    }
    assert(ev.take(i as int) =~= ev);
    out
}

/// The selector list for blocks of text.
fn block_selector() -> (v: Vec<SimpleSel>)
    ensures
        sel_views(v@) == block_sel(),
{
    let mut v: Vec<SimpleSel> = Vec::new();
    v.push(crate::dom::sel_tag("p"));
    v.push(crate::dom::sel_tag("h1"));
    v.push(crate::dom::sel_tag("h2"));
    v.push(crate::dom::sel_tag("h3"));
    v.push(crate::dom::sel_tag("h4"));
    v.push(crate::dom::sel_tag("li"));
    v.push(crate::dom::sel_tag("blockquote"));
    v.push(crate::dom::sel_tag("pre"));
    v.push(crate::dom::sel_tag("td"));
    v.push(crate::dom::sel_tag("th"));
    v.push(crate::dom::sel_tag("div"));
    assert(sel_views(v@) =~= block_sel());
    v
}

/// A text cut to `n` characters, with an ellipsis when it was longer.
fn shortened_exec(t: &[char], n: usize) -> (r: Vec<char>)
    ensures
        r@ == shortened(t@, n as nat),
{
    if t.len() > n {
        let mut r = take_chars_exec(t, n);
        let e = chars_of("…");
        extend_chars(&mut r, e.as_slice());
        r
    } else {
        let mut r: Vec<char> = Vec::new();
        extend_chars(&mut r, t);
        r
    }
}

/// The lines of a page whose body draws nothing.
fn render_fallback_lines(doc: &DomNode, title: &[char]) -> (r: Vec<Line>)
    ensures
        lines_view(r@) == fallback_lines(node_view(*doc), title@),
{
    let mut out: Vec<Line> = Vec::new();
    push_empty(&mut out);
    let t = lit_cat("  ", title);
    push_text(&mut out, t.as_slice(), Style::H1);
    push_empty(&mut out);
    let ghost head = lines_view(out@);
    let mut ds: Vec<SimpleSel> = Vec::new();
    ds.push(crate::dom::sel_attr_eq("meta", "name", "description"));
    ds.push(crate::dom::sel_attr_eq("meta", "property", "og:description"));
    assert(sel_views(ds@) =~= description_sel());
    let ms = select_nodes(doc, &ds);
    if let Some(v) = find_description(&ms) {
        let d = lit_cat("  ", take_chars_exec(v.as_slice(), 300).as_slice());
        push_text(&mut out, d.as_slice(), Style::Meta);
        push_empty(&mut out);
    }
    let ghost with_desc = lines_view(out@);
    let els = select_nodes(doc, &block_selector());
    let all = collect_blocks(&els);
    let n = if all.len() <= 15 { all.len() } else { 15 };
    let ghost ts = take_first(char_views(all@), 15);
    assert(ts.len() == n);
    let mut i: usize = 0;
    while i < n
        invariant
            i <= n == ts.len(),
            n <= all@.len(),
            ts == take_first(char_views(all@), 15),
            lines_view(out@) == with_desc + block_lines(ts, i as nat),
        decreases n - i,
    {
        assert(ts[i as int] == all@[i as int]@);
        let s = shortened_exec(all[i].as_slice(), 200);
        let l = lit_cat("  ", s.as_slice());
        push_text(&mut out, l.as_slice(), Style::Body);
        push_empty(&mut out);
        assert(lines_view(out@) =~= with_desc + block_lines(ts, (i + 1) as nat));
        i += 1;
    }
    if n == 0 {
        let w = chars_of("  ⚡ This page requires JavaScript to display its content.");
        push_text(&mut out, w.as_slice(), Style::Warn);
        let d = chars_of("  Try opening it with headless Chromium or use reader mode.");
        push_text(&mut out, d.as_slice(), Style::Dim);
        push_empty(&mut out);
    }
    assert(lines_view(out@) =~= fallback_lines(node_view(*doc), title@));
    out
}

// ── Pages ──────────────────────────────────────────────────────────────────

/// A page as values: title, address, lines, links.
pub type PageV = (Seq<char>, Seq<char>, Seq<LineV>, Seq<(Seq<char>, Seq<char>)>);

/// The values of a rendered page.
pub open spec fn page_view(p: RenderedPage) -> PageV {
    (p.title@, p.url@, lines_view(p.lines@), links_view(p.links@))
}

/// The head of a page: its title and its address.
pub open spec fn header_lines(title: Seq<char>, url: Seq<char>) -> Seq<LineV> {
    seq![seq![], seq![("  "@ + title, Style::Title)], seq![("  "@ + url, Style::Meta)], seq![]]
}

/// The line of link `i` (counted from 0): its number in brackets, its label
/// (cut to 60 characters with an ellipsis) and its target.
pub open spec fn link_line(i: nat, link: (Seq<char>, Seq<char>)) -> LineV {
    seq![
        ("  ["@ + pad_left(decimal(i + 1), 2) + "] "@, Style::Dim),
        (shortened(link.1, 60), Style::Link),
        ("  "@ + link.0, Style::MetaPlain),
    ]
}

/// The lines of the first `n` links.
pub open spec fn link_lines(links: Seq<(Seq<char>, Seq<char>)>, n: nat) -> Seq<LineV>
    decreases n,
{
    if n == 0 {
        seq![]
    } else {
        link_lines(links, (n - 1) as nat) + seq![link_line((n - 1) as nat, links[n - 1])]
    }
}

/// The list of links at the foot of a page: a rule, a heading with their
/// number, and the first 30 of them. Nothing when there are none.
pub open spec fn links_section(links: Seq<(Seq<char>, Seq<char>)>) -> Seq<LineV> {
    if links.len() == 0 {
        seq![]
    } else {
        seq![
            seq![(rule_text(), Style::Separator)],
            seq![],
            seq![("  Links on this page ("@ + decimal(links.len()) + " total, showing first 30):"@, Style::Section)],
            seq![],
        ] + link_lines(links, nat_min(links.len(), 30))
    }
}

/// A page drawn from its document tree: the title, the body and the list of
/// links; or, when the body draws nothing, the fallback lines.
pub open spec fn document_page(doc: Tree, url: Seq<char>) -> PageV {
    let title = page_title(doc, url);
    let links = page_links(doc, url);
    let body = body_lines(doc);
    if body.len() == 0 {
        (title, url, fallback_lines(doc, title), links)
    } else {
        (title, url, header_lines(title, url) + body + links_section(links), links)
    }
}

/// Appends the lines of the link list.
fn push_links_section(out: &mut Vec<Line>, links: &Vec<(String, String)>)
    ensures
        lines_view(final(out)@) == lines_view(old(out)@) + links_section(links_view(links@)),
{
    let ghost lv = links_view(links@);
    if links.len() == 0 {
        assert(lines_view(out@) =~= lines_view(old(out)@) + links_section(lv));
        return;
    }
    let dashes = repeat_chars("━", 40);
    let a = lit_cat("  ", dashes.as_slice());
    let b = chars_of(" ");
    let r = cat(a.as_slice(), b.as_slice());
    assert(r@ =~= rule_text());
    push_text(out, r.as_slice(), Style::Separator);
    push_empty(out);
    let mut count: Vec<char> = Vec::new();
    crate::display::push_decimal(&mut count, links.len());
    let head = lit_cat("  Links on this page (", count.as_slice());
    let tail = chars_of(" total, showing first 30):");
    let h = cat(head.as_slice(), tail.as_slice());
    push_text(out, h.as_slice(), Style::Section);
    push_empty(out);
    let ghost start = lines_view(out@);
    assert(start =~= lines_view(old(out)@) + links_section(lv).take(4));
    let n = if links.len() <= 30 { links.len() } else { 30 };
    let mut i: usize = 0;
    while i < n
        invariant
            i <= n <= links@.len(),
            n == nat_min(links@.len(), 30),
            lv == links_view(links@),
            lines_view(out@) == start + link_lines(lv, i as nat),
        decreases n - i,
    {
        let mut num: Vec<char> = Vec::new();
        crate::display::push_decimal(&mut num, i + 1);
        let num = pad_left_chars(num.as_slice(), 2);
        let a = lit_cat("  [", num.as_slice());
        let b = chars_of("] ");
        let first = cat(a.as_slice(), b.as_slice());
        let label_chars = chars_of(links[i].1.as_str());
        let label = shortened_exec(label_chars.as_slice(), 60);
        let target_chars = chars_of(links[i].0.as_str());
        let target = lit_cat("  ", target_chars.as_slice());
        let mut spans: Vec<Span> = Vec::new();
        push_span(&mut spans, first.as_slice(), Style::Dim);
        push_span(&mut spans, label.as_slice(), Style::Link);
        push_span(&mut spans, target.as_slice(), Style::MetaPlain);
        assert(spans_view(spans@) =~= link_line(i as nat, lv[i as int]));
        push_line(out, spans);
        assert(lines_view(out@) =~= start + link_lines(lv, (i + 1) as nat));
        i += 1;
    }
    assert(lines_view(out@) =~= lines_view(old(out)@) + links_section(lv));
}

/// Draws a page from its document tree: title, body and list of links, or
/// the fallback lines when the body draws nothing.
pub fn render_document(doc: &DomNode, url: &str) -> (p: RenderedPage)
    ensures
        page_view(p) == document_page(node_view(*doc), url@),
{
    let title = extract_title(doc, url);
    let links = extract_links(doc, url);
    let body = render_body(doc);
    if body.len() == 0 {
        let lines = render_fallback_lines(doc, title.as_slice());
        return RenderedPage { title: string_of(title.as_slice()), url: string_of(chars_of(url).as_slice()), lines, links };
    }
    let mut all: Vec<Line> = Vec::new();
    push_empty(&mut all);
    let t = lit_cat("  ", title.as_slice());
    push_text(&mut all, t.as_slice(), Style::Title);
    let u = lit_cat("  ", chars_of(url).as_slice());
    push_text(&mut all, u.as_slice(), Style::Meta);
    push_empty(&mut all);
    let ghost head = lines_view(all@);
    let mut body = body;
    let ghost bv = lines_view(body@);
    all.append(&mut body);
    assert(lines_view(all@) =~= head + bv);
    push_links_section(&mut all, &links);
    RenderedPage { title: string_of(title.as_slice()), url: string_of(chars_of(url).as_slice()), lines: all, links }
}

// ── Removing non-content markup ────────────────────────────────────────────

/// What `regex::Regex::new(pattern)` followed by `replace_all(text, "")`
/// gives: the text with every match of the pattern removed, or nothing when
/// the pattern does not compile.
pub uninterp spec fn regex_erased(pattern: Seq<char>, text: Seq<char>) -> Option<Seq<char>>;

/// Removes every match of a regular expression with the `regex` crate:
/// `Regex::new(pattern)`, then `replace_all(text, "")`. `None` when the
/// pattern does not compile. The contract only names the result
/// (`regex_erased`); the matching itself is the crate's.
#[verifier::external_body]
fn regex_erase(pattern: &str, text: &str) -> (r: Option<String>)
    ensures
        crate::config::opt_view(r) == regex_erased(pattern@, text@),
{
    match regex::Regex::new(pattern) {
        Ok(re) => Some(re.replace_all(text, "").to_string()),
        Err(_) => None,
    }
}

/// The pattern for an element with the given name and all it contains, in
/// any case, across lines.
pub open spec fn element_pattern(tag: Seq<char>) -> Seq<char> {
    "(?is)<\\s*"@ + tag + "[^>]*>.*?</\\s*"@ + tag + "\\s*>"@
}

/// The pattern for `link`, `meta` and `input` tags.
pub open spec fn void_pattern() -> Seq<char> {
    "(?is)<\\s*(link|meta|input)\\b[^>]*/?\\s*>"@
}

/// The text with the matches of the pattern removed; unchanged when the
/// pattern does not compile.
pub open spec fn erase_step(pattern: Seq<char>, s: Seq<char>) -> Seq<char> {
    match regex_erased(pattern, s) {
        Some(x) => x,
        None => s,
    }
}

/// The names of the elements removed before a page is parsed.
pub open spec fn non_content_tags() -> Seq<Seq<char>> {
    seq![
        "script"@,
        "style"@,
        "noscript"@,
        "iframe"@,
        "svg"@,
        "canvas"@,
        "nav"@,
        "footer"@,
        "header"@,
        "aside"@,
    ]
}

/// The text with the elements of the first `n` names removed, in order.
pub open spec fn erase_elements(s: Seq<char>, tags: Seq<Seq<char>>, n: nat) -> Seq<char>
    decreases n,
{
    if n == 0 {
        s
    } else {
        erase_step(element_pattern(tags[n - 1]), erase_elements(s, tags, (n - 1) as nat))
    }
}

/// The markup with scripts, styles, frames, drawings, navigation, page
/// headers and footers, asides and `link`/`meta`/`input` tags removed.
pub open spec fn stripped(html: Seq<char>) -> Seq<char> {
    erase_step(void_pattern(), erase_elements(html, non_content_tags(), 10))
}

/// Removes the matches of a pattern; leaves the text as it is when the
/// pattern does not compile.
fn erase_pattern(pattern: &[char], s: String) -> (r: String)
    ensures
        r@ == erase_step(pattern@, s@),
{
    let p = string_of(pattern);
    match regex_erase(p.as_str(), s.as_str()) {
        Some(x) => x,
        None => s,
    }
}

/// The names of the elements removed before a page is parsed.
fn non_content_tag_list() -> (v: Vec<&'static str>)
    ensures
        v@.map_values(|t: &str| t@) == non_content_tags(),
{
    let mut v: Vec<&'static str> = Vec::new();
    v.push("script");
    v.push("style");
    v.push("noscript");
    v.push("iframe");
    v.push("svg");
    v.push("canvas");
    v.push("nav");
    v.push("footer");
    v.push("header");
    v.push("aside");
    assert(v@.map_values(|t: &str| t@) =~= non_content_tags());
    v
}

/// Removes the markup that carries no content.
pub fn strip_non_content(html: &str) -> (r: String)
    ensures
        r@ == stripped(html@),
{
    let tags = non_content_tag_list();
    let ghost tv = tags@.map_values(|t: &str| t@);
    assert(tv.len() == tags@.len());
    assert(non_content_tags().len() == 10);
    let mut s = string_of(chars_of(html).as_slice());
    let mut i: usize = 0;
    while i < tags.len()
        invariant
            i <= tags@.len() == 10,
            tv == tags@.map_values(|t: &str| t@),
            tv == non_content_tags(),
            s@ == erase_elements(html@, tv, i as nat),
        decreases tags.len() - i,
    {
        let tag = chars_of(tags[i]);
        let a = lit_cat("(?is)<\\s*", tag.as_slice());
        let b = lit_cat("[^>]*>.*?</\\s*", tag.as_slice());
        let c = chars_of("\\s*>");
        let pat = cat(cat(a.as_slice(), b.as_slice()).as_slice(), c.as_slice());
        assert(pat@ =~= element_pattern(tv[i as int]));
        s = erase_pattern(pat.as_slice(), s);
        i += 1;
    }
    let v = chars_of("(?is)<\\s*(link|meta|input)\\b[^>]*/?\\s*>");
    erase_pattern(v.as_slice(), s)
}

/// Draws a page of HTML: non-content markup removed, the rest parsed and
/// drawn as `render_document` does.
pub fn render_html(html: &str, url: &str) -> (p: RenderedPage)
    ensures
        page_view(p) == document_page(crate::dom::document(stripped(html@)), url@),
{
    let cleaned = strip_non_content(html);
    let doc = crate::dom::parse_document(cleaned.as_str());
    render_document(&doc, url)
}

/// The lines of the page shown when a page could not be loaded.
pub open spec fn error_lines(message: Seq<char>, url: Seq<char>) -> Seq<LineV> {
    seq![
        seq![],
        seq![("  ⚠ Connection Error"@, Style::ErrorBold)],
        seq![],
        seq![("  "@ + message, Style::Error)],
        seq![],
        seq![("  URL: "@ + url, Style::Dim)],
        seq![],
        seq![("  Check the URL and try again."@, Style::Dim)],
        seq![],
    ]
}

/// The page shown when a page could not be loaded: the message and the
/// address, no links, titled "Error - " and the address.
pub fn render_error(message: &str, url: &str) -> (p: RenderedPage)
    ensures
        p.title@ == "Error - "@ + url@,
        p.url@ == url@,
        lines_view(p.lines@) == error_lines(message@, url@),
        p.links@.len() == 0,
{
    let mut lines: Vec<Line> = Vec::new();
    push_empty(&mut lines);
    push_text(&mut lines, chars_of("  ⚠ Connection Error").as_slice(), Style::ErrorBold);
    push_empty(&mut lines);
    push_text(&mut lines, lit_cat("  ", chars_of(message).as_slice()).as_slice(), Style::Error);
    push_empty(&mut lines);
    push_text(&mut lines, lit_cat("  URL: ", chars_of(url).as_slice()).as_slice(), Style::Dim);
    push_empty(&mut lines);
    push_text(&mut lines, chars_of("  Check the URL and try again.").as_slice(), Style::Dim);
    push_empty(&mut lines);
    assert(lines_view(lines@) =~= error_lines(message@, url@));
    let title = lit_cat("Error - ", chars_of(url).as_slice());
    RenderedPage {
        title: string_of(title.as_slice()),
        url: string_of(chars_of(url).as_slice()),
        lines,
        links: Vec::new(),
    }
}

// ── Laws ───────────────────────────────────────────────────────────────────

/// A page lists each (target, label) pair of its links once, and every label
/// has text.
pub proof fn law_page_links_distinct(doc: Tree, url: Seq<char>)
    ensures
        page_links(doc, url).no_duplicates(),
        forall|i: int| 0 <= i < page_links(doc, url).len() ==> (#[trigger] page_links(doc, url)[i]).1.len() > 0,
{
    lemma_link_scan_distinct(select(doc, link_sel()), url);
}

/// The link list at the foot of a page shows at most 30 links: four lines of
/// heading, then one line for each of the first 30 links.
pub proof fn law_link_list_at_most_30(links: Seq<(Seq<char>, Seq<char>)>)
    ensures
        links.len() == 0 ==> links_section(links).len() == 0,
        links.len() > 0 ==> links_section(links).len() == 4 + nat_min(links.len(), 30),
{
    lemma_link_lines_len(links, nat_min(links.len(), 30));
}

/// There is one line for each link drawn.
proof fn lemma_link_lines_len(links: Seq<(Seq<char>, Seq<char>)>, n: nat)
    ensures
        link_lines(links, n).len() == n,
    decreases n,
{
    if n > 0 {
        lemma_link_lines_len(links, (n - 1) as nat);
    }
}

/// A page drawn from an address that is not empty has a title that is not
/// empty.
pub proof fn law_title_not_empty(doc: Tree, url: Seq<char>)
    requires
        url.len() > 0,
    ensures
        page_title(doc, url).len() > 0,
{
    lemma_first_content_not_empty(select(doc, og_title_sel()));
    lemma_first_title_not_empty(select(doc, tag_sel("title"@)));
    lemma_first_heading_not_empty(select(doc, tag_sel("h1"@)));
    lemma_first_heading_not_empty(select(doc, tag_sel("h2"@)));
}

/// A content attribute that is found has text.
proof fn lemma_first_content_not_empty(ms: Seq<Tree>)
    ensures
        first_content(ms) matches Some(t) ==> t.len() > 0,
    decreases ms.len(),
{
    if ms.len() > 0 {
        lemma_first_content_not_empty(ms.drop_first());
    }
}

/// A title text that is found has text.
proof fn lemma_first_title_not_empty(ts: Seq<Tree>)
    ensures
        first_title_text(ts) matches Some(t) ==> t.len() > 0,
    decreases ts.len(),
{
    if ts.len() > 0 {
        lemma_first_title_not_empty(ts.drop_first());
    }
}

/// A heading text that is found has text.
proof fn lemma_first_heading_not_empty(ts: Seq<Tree>)
    ensures
        first_heading_text(ts) matches Some(t) ==> t.len() > 0,
    decreases ts.len(),
{
    if ts.len() > 0 {
        lemma_first_heading_not_empty(ts.drop_first());
        let t = trim(text_of(ts[0]));
        if t.len() == 0 {
            assert(t =~= Seq::<char>::empty());
            assert(encode_utf8(t).len() == 0);
        }
    }
}

/// A title taken from the page's `title` element or headings is at most 200
/// characters long; only an Open Graph title, or the address used in their
/// absence, can be longer.
pub proof fn law_title_at_most_200(doc: Tree, url: Seq<char>)
    ensures
        first_content(select(doc, og_title_sel())) is None ==> page_title(doc, url).len() <= 200
            || page_title(doc, url) == url,
{
    lemma_first_title_short(select(doc, tag_sel("title"@)));
    lemma_first_heading_short(select(doc, tag_sel("h1"@)));
    lemma_first_heading_short(select(doc, tag_sel("h2"@)));
}

/// A title text that is found is at most 200 characters long.
proof fn lemma_first_title_short(ts: Seq<Tree>)
    ensures
        first_title_text(ts) matches Some(t) ==> t.len() <= 200,
    decreases ts.len(),
{
    if ts.len() > 0 {
        lemma_first_title_short(ts.drop_first());
    }
}

/// A heading text that is found is at most 200 characters long.
proof fn lemma_first_heading_short(ts: Seq<Tree>)
    ensures
        first_heading_text(ts) matches Some(t) ==> t.len() <= 200,
    decreases ts.len(),
{
    if ts.len() > 0 {
        lemma_first_heading_short(ts.drop_first());
    }
}

} // verus!
