//! Text layout for the terminal: word wrapping and thousands separators.
use vstd::prelude::*;
use crate::text::{char_views, chars_of, join, lemma_words_nonempty, split_whitespace, string_of, trim, words};

verus! {

/// `w` cut into pieces of `width` characters, the last one possibly shorter.
pub open spec fn chunks(w: Seq<char>, width: nat) -> Seq<Seq<char>>
    decreases w.len(),
{
    if w.len() == 0 || width == 0 {
        seq![]
    } else {
        let k = if w.len() < width { w.len() } else { width };
        seq![w.take(k as int)] + chunks(w.skip(k as int), width)
    }
}

/// The current line, closed if it holds anything.
pub open spec fn close_line(lines: Seq<Seq<char>>, cur: Seq<char>) -> Seq<Seq<char>> {
    if cur.len() > 0 {
        lines.push(cur)
    } else {
        lines
    }
}

/// The finished lines and the line being filled, after placing the words in
/// order: a word longer than the width is cut into pieces of its own, a word
/// that does not fit after the current line (with a space) starts a new line,
/// any other word is added to the current line after a space.
pub open spec fn wrap_scan(ws: Seq<Seq<char>>, width: nat) -> (Seq<Seq<char>>, Seq<char>)
    decreases ws.len(),
{
    if ws.len() == 0 {
        (seq![], seq![])
    } else {
        let (lines, cur) = wrap_scan(ws.drop_last(), width);
        let w = ws.last();
        if w.len() > width {
            (close_line(lines, cur) + chunks(w, width), seq![])
        } else if cur.len() + w.len() + 1 > width {
            (close_line(lines, cur), w)
        } else if cur.len() > 0 {
            (lines, cur + seq![' '] + w)
        } else {
            (lines, w)
        }
    }
}

/// The lines that `word_wrap` gives: the text itself when the width is below
/// 10 or the text has no words, otherwise its words wrapped to the width.
pub open spec fn wrapped_lines(text: Seq<char>, width: nat) -> Seq<Seq<char>> {
    if width < 10 {
        seq![text]
    } else {
        let (lines, cur) = wrap_scan(words(text), width);
        let all = close_line(lines, cur);
        if all.len() == 0 {
            seq![text]
        } else {
            all
        }
    }
}

/// The views of a sequence of owned strings.
pub open spec fn string_views(v: Seq<String>) -> Seq<Seq<char>> {
    v.map_values(|s: String| s@)
}

/// Appends the pieces of `w` to `lines`.
fn push_chunks(lines: &mut Vec<Vec<char>>, w: &Vec<char>, width: usize)
    requires
        width > 0,
    ensures
        char_views(final(lines)@) == char_views(old(lines)@) + chunks(w@, width as nat),
{
    let mut pos: usize = 0;
    assert(w@.skip(0) =~= w@);
    while pos < w.len()
        invariant
            width > 0,
            pos <= w@.len(),
            char_views(lines@) + chunks(w@.skip(pos as int), width as nat) == char_views(old(lines)@)
                + chunks(w@, width as nat),
        decreases w.len() - pos,
    {
        let rest_len = w.len() - pos;
        let k = if rest_len < width { rest_len } else { width };
        let mut piece: Vec<char> = Vec::new();
        let mut j: usize = 0;
        while j < k
            invariant
                j <= k <= w@.len() - pos,
                w@.len() == w.len(),
                piece@ == w@.subrange(pos as int, pos + j),
            decreases k - j,
        {
            piece.push(w[pos + j]);
            j += 1;
            assert(piece@ =~= w@.subrange(pos as int, pos + j));
        }
        let ghost rest = w@.skip(pos as int);
        assert(rest.take(k as int) =~= piece@);
        assert(rest.skip(k as int) =~= w@.skip(pos + k));
        let ghost before = char_views(lines@);
        lines.push(piece);
        assert(char_views(lines@) =~= before.push(piece@));
        assert(char_views(lines@) + chunks(w@.skip(pos + k), width as nat) =~= before + chunks(
            rest,
            width as nat,
        ));
        pos = pos + k;
    }
    assert(chunks(w@.skip(pos as int), width as nat) =~= Seq::<Seq<char>>::empty());
    assert(char_views(lines@) + Seq::<Seq<char>>::empty() =~= char_views(lines@));
}

/// Every piece of a cut word has between 1 and `width` characters.
pub proof fn lemma_chunks_bounded(w: Seq<char>, width: nat)
    ensures
        forall|i: int|
            0 <= i < chunks(w, width).len() ==> 0 < #[trigger] chunks(w, width)[i].len() <= width,
    decreases w.len(),
{
    if w.len() > 0 && width > 0 {
        let k = if w.len() < width { w.len() } else { width };
        lemma_chunks_bounded(w.skip(k as int), width);
        assert forall|i: int|
            0 <= i < chunks(w, width).len() implies 0 < #[trigger] chunks(w, width)[i].len()
            <= width by {
            if i > 0 {
                assert(chunks(w, width)[i] == chunks(w.skip(k as int), width)[i - 1]);
            }
        }
    }
}

/// Every finished line and the current line fit in the width.
pub proof fn lemma_wrap_scan_bounded(ws: Seq<Seq<char>>, width: nat)
    ensures
        forall|i: int|
            0 <= i < wrap_scan(ws, width).0.len() ==> #[trigger] wrap_scan(ws, width).0[i].len()
                <= width,
        wrap_scan(ws, width).1.len() <= width,
    decreases ws.len(),
{
    if ws.len() > 0 {
        lemma_wrap_scan_bounded(ws.drop_last(), width);
        let (lines, cur) = wrap_scan(ws.drop_last(), width);
        let w = ws.last();
        if w.len() > width {
            lemma_chunks_bounded(w, width);
            let closed = close_line(lines, cur);
            assert forall|i: int|
                0 <= i < (closed + chunks(w, width)).len() implies #[trigger] (closed + chunks(
                w,
                width,
            ))[i].len() <= width by {
                if i >= closed.len() {
                    assert((closed + chunks(w, width))[i] == chunks(w, width)[i - closed.len()]);
                } else {
                    assert((closed + chunks(w, width))[i] == closed[i]);
                }
            }
        } else {
            assert forall|i: int|
                0 <= i < close_line(lines, cur).len() implies #[trigger] close_line(
                lines,
                cur,
            )[i].len() <= width by {
                if i < lines.len() {
                    assert(close_line(lines, cur)[i] == lines[i]);
                }
            }
        }
    }
}

/// A last word that is not empty leaves something to print.
pub proof fn lemma_wrap_scan_nonempty(ws: Seq<Seq<char>>, width: nat)
    requires
        ws.len() > 0,
        ws.last().len() > 0,
        width > 0,
    ensures
        close_line(wrap_scan(ws, width).0, wrap_scan(ws, width).1).len() > 0,
{
    let (lines, cur) = wrap_scan(ws.drop_last(), width);
    let w = ws.last();
    if w.len() > width {
        assert(chunks(w, width).len() > 0);
    }
}

/// Word wrap: there is always at least one line, and when the width is at
/// least 10 and the text has a word, no line is wider than the width. (A text
/// without words comes back whole as its only line, whatever its length.)
pub proof fn law_wrapped_lines_fit(text: Seq<char>, width: nat)
    ensures
        wrapped_lines(text, width).len() > 0,
        width >= 10 && words(text).len() > 0 ==> forall|i: int|
            0 <= i < wrapped_lines(text, width).len() ==> #[trigger] wrapped_lines(text, width)[i].len()
                <= width,
        words(text).len() == 0 ==> wrapped_lines(text, width) == seq![text],
{
    if width >= 10 {
        lemma_wrap_scan_bounded(words(text), width);
        let (lines, cur) = wrap_scan(words(text), width);
        if words(text).len() > 0 {
            lemma_words_nonempty(text);
            lemma_wrap_scan_nonempty(words(text), width);
        } else {
            assert(words(text) =~= Seq::<Seq<char>>::empty());
        }
        assert forall|i: int|
            0 <= i < close_line(lines, cur).len() implies #[trigger] close_line(lines, cur)[i].len()
            <= width by {
            if i < lines.len() {
                assert(close_line(lines, cur)[i] == lines[i]);
            }
        }
    }
}

/// Placing words that are not empty and fit the width keeps them whole and in
/// order: the lines, joined with single spaces, are the words joined with
/// single spaces, and once a word is placed the current line holds something.
pub proof fn lemma_wrap_scan_keeps_words(ws: Seq<Seq<char>>, width: nat)
    requires
        forall|i: int| 0 <= i < ws.len() ==> 0 < #[trigger] ws[i].len() <= width,
    ensures
        join(close_line(wrap_scan(ws, width).0, wrap_scan(ws, width).1), " "@) == join(ws, " "@),
        ws.len() > 0 ==> wrap_scan(ws, width).1.len() > 0,
        ws.len() == 0 ==> wrap_scan(ws, width).0.len() == 0 && wrap_scan(ws, width).1.len() == 0,
    decreases ws.len(),
{
    if ws.len() > 0 {
        let front = ws.drop_last();
        lemma_wrap_scan_keeps_words(front, width);
        let (lines, cur) = wrap_scan(front, width);
        let w = ws.last();
        let sp = " "@;
        assert(w == ws[ws.len() - 1]);
        if front.len() == 0 {
            assert(ws =~= seq![w]);
            assert(close_line(lines, cur) =~= Seq::<Seq<char>>::empty());
        } else {
            assert(join(ws, sp) == join(front, sp) + sp + w);
        }
        if cur.len() + w.len() + 1 > width {
            let closed = close_line(lines, cur);
            assert(close_line(closed, w) == closed.push(w));
            if closed.len() > 0 {
                assert(closed.push(w).drop_last() =~= closed);
            } else {
                assert(closed.push(w) =~= seq![w]);
            }
        } else if cur.len() > 0 {
            let longer = cur + seq![' '] + w;
            assert(" "@ =~= seq![' ']) by {
                reveal_strlit(" ");
            }
            if lines.len() > 0 {
                assert(lines.push(longer).drop_last() =~= lines);
                assert(lines.push(cur).drop_last() =~= lines);
                assert(join(lines.push(longer), sp) =~= join(lines.push(cur), sp) + sp + w);
            } else {
                assert(lines.push(longer) =~= seq![longer]);
                assert(lines.push(cur) =~= seq![cur]);
            }
        } else {
            assert(close_line(lines, w) =~= seq![w]);
        }
    }
}

/// The text without its spaces.
pub open spec fn no_spaces(s: Seq<char>) -> Seq<char>
    decreases s.len(),
{
    if s.len() == 0 {
        seq![]
    } else {
        no_spaces(s.drop_last()) + if s.last() == ' ' {
            seq![]
        } else {
            seq![s.last()]
        }
    }
}

/// The texts one after another, each without its spaces.
pub open spec fn flat_no_spaces(ts: Seq<Seq<char>>) -> Seq<char>
    decreases ts.len(),
{
    if ts.len() == 0 {
        seq![]
    } else {
        flat_no_spaces(ts.drop_last()) + no_spaces(ts.last())
    }
}

/// Dropping spaces works piece by piece.
proof fn lemma_no_spaces_add(a: Seq<char>, b: Seq<char>)
    ensures
        no_spaces(a + b) == no_spaces(a) + no_spaces(b),
    decreases b.len(),
{
    if b.len() == 0 {
        assert(a + b =~= a);
        assert(no_spaces(a) + no_spaces(b) =~= no_spaces(a));
    } else {
        lemma_no_spaces_add(a, b.drop_last());
        assert((a + b).drop_last() =~= a + b.drop_last());
        assert((a + b).last() == b.last());
        assert(no_spaces(a + b) =~= no_spaces(a) + no_spaces(b));
    }
}

/// Flattening works list by list.
proof fn lemma_flat_no_spaces_add(a: Seq<Seq<char>>, b: Seq<Seq<char>>)
    ensures
        flat_no_spaces(a + b) == flat_no_spaces(a) + flat_no_spaces(b),
    decreases b.len(),
{
    if b.len() == 0 {
        assert(a + b =~= a);
        assert(flat_no_spaces(a) + flat_no_spaces(b) =~= flat_no_spaces(a));
    } else {
        lemma_flat_no_spaces_add(a, b.drop_last());
        assert((a + b).drop_last() =~= a + b.drop_last());
        assert((a + b).last() == b.last());
        assert(flat_no_spaces(a + b) =~= flat_no_spaces(a) + flat_no_spaces(b));
    }
}

/// The pieces of a cut word give the word back.
proof fn lemma_chunks_flat(w: Seq<char>, width: nat)
    requires
        width > 0,
    ensures
        flat_no_spaces(chunks(w, width)) == no_spaces(w),
    decreases w.len(),
{
    if w.len() > 0 {
        let k = if w.len() < width {
            w.len()
        } else {
            width
        };
        lemma_chunks_flat(w.skip(k as int), width);
        lemma_flat_no_spaces_add(seq![w.take(k as int)], chunks(w.skip(k as int), width));
        let one = seq![w.take(k as int)];
        assert(one.drop_last() =~= Seq::<Seq<char>>::empty());
        assert(flat_no_spaces(one.drop_last()) == Seq::<char>::empty());
        assert(one.last() == w.take(k as int));
        assert(flat_no_spaces(one) == flat_no_spaces(one.drop_last()) + no_spaces(one.last()));
        assert(flat_no_spaces(one) =~= no_spaces(w.take(k as int)));
        assert(chunks(w, width) == one + chunks(w.skip(k as int), width));
        lemma_no_spaces_add(w.take(k as int), w.skip(k as int));
        assert(w.take(k as int) + w.skip(k as int) =~= w);
    } else {
        assert(no_spaces(w) == Seq::<char>::empty());
    }
}

/// Placing words loses no character but spaces: the finished lines and the
/// current line, without their spaces, are the words without theirs.
proof fn lemma_wrap_scan_keeps_text(ws: Seq<Seq<char>>, width: nat)
    requires
        width > 0,
    ensures
        flat_no_spaces(wrap_scan(ws, width).0) + no_spaces(wrap_scan(ws, width).1) == flat_no_spaces(ws),
    decreases ws.len(),
{
    if ws.len() == 0 {
        assert(no_spaces(Seq::<char>::empty()) == Seq::<char>::empty());
        assert(flat_no_spaces(Seq::<Seq<char>>::empty()) + Seq::<char>::empty() =~= Seq::<char>::empty());
    } else {
        let front = ws.drop_last();
        lemma_wrap_scan_keeps_text(front, width);
        let (lines, cur) = wrap_scan(front, width);
        let w = ws.last();
        lemma_close_line_keeps_text(lines, cur);
        let e = Seq::<char>::empty();
        assert(no_spaces(e) == e);
        if w.len() > width {
            let closed = close_line(lines, cur);
            lemma_flat_no_spaces_add(closed, chunks(w, width));
            lemma_chunks_flat(w, width);
            assert(flat_no_spaces(closed + chunks(w, width)) + e =~= flat_no_spaces(closed) + no_spaces(w));
        } else if cur.len() + w.len() + 1 > width {
        } else if cur.len() > 0 {
            lemma_no_spaces_add(cur + seq![' '], w);
            lemma_no_spaces_add(cur, seq![' ']);
            assert(seq![' '].drop_last() =~= e);
            assert(no_spaces(seq![' ']) =~= e);
            assert(no_spaces(cur + seq![' ']) =~= no_spaces(cur));
            assert(flat_no_spaces(lines) + no_spaces(cur + seq![' '] + w) =~= flat_no_spaces(lines) + no_spaces(cur)
                + no_spaces(w));
        } else {
            assert(no_spaces(cur) == e) by {
                assert(cur =~= e);
            }
            assert(flat_no_spaces(lines) + e =~= flat_no_spaces(lines));
        }
    }
}

/// Closing the current line keeps its characters.
proof fn lemma_close_line_keeps_text(lines: Seq<Seq<char>>, cur: Seq<char>)
    ensures
        flat_no_spaces(close_line(lines, cur)) == flat_no_spaces(lines) + no_spaces(cur),
{
    if cur.len() > 0 {
        assert(lines.push(cur).drop_last() =~= lines);
    } else {
        assert(cur =~= Seq::<char>::empty());
        assert(flat_no_spaces(lines) + no_spaces(cur) =~= flat_no_spaces(lines));
    }
}

/// Word wrap loses no text: for a width of at least 10 and a text with
/// words, the lines without their spaces, one after another, are the words
/// one after another, also when a word longer than the width is cut.
pub proof fn law_wrap_loses_no_text(text: Seq<char>, width: nat)
    requires
        width >= 10,
        words(text).len() > 0,
    ensures
        flat_no_spaces(wrapped_lines(text, width)) == flat_no_spaces(words(text)),
{
    lemma_words_nonempty(text);
    lemma_wrap_scan_nonempty(words(text), width);
    lemma_wrap_scan_keeps_text(words(text), width);
    let (lines, cur) = wrap_scan(words(text), width);
    lemma_close_line_keeps_text(lines, cur);
}

/// Word wrap keeps the words: when every word of the text fits the width
/// (of at least 10), the lines joined with single spaces are the text's
/// words joined with single spaces. (A text without words comes back whole,
/// white space and all.)
pub proof fn law_wrap_keeps_words(text: Seq<char>, width: nat)
    requires
        width >= 10,
        words(text).len() > 0,
        forall|i: int| 0 <= i < words(text).len() ==> #[trigger] words(text)[i].len() <= width,
    ensures
        join(wrapped_lines(text, width), " "@) == join(words(text), " "@),
{
    lemma_words_nonempty(text);
    lemma_wrap_scan_keeps_words(words(text), width);
    lemma_wrap_scan_nonempty(words(text), width);
}

/// Wraps text to the given width (in characters), breaking at white space and
/// cutting words that are longer than the width. Below a width of 10 the text
/// is returned as its only line.
pub fn word_wrap(text: &str, width: usize) -> (lines: Vec<String>)
    ensures
        string_views(lines@) == wrapped_lines(text@, width as nat),
{
    if width < 10 {
        let mut one: Vec<String> = Vec::new();
        one.push(String::from_str(text));
        assert(string_views(one@) =~= wrapped_lines(text@, width as nat));
        return one;
    }
    let chars = chars_of(text);
    let ws = split_whitespace(chars.as_slice());
    let mut lines: Vec<Vec<char>> = Vec::new();
    let mut current: Vec<char> = Vec::new();
    let mut i: usize = 0;
    while i < ws.len()
        invariant
            width >= 10,
            i <= ws@.len(),
            char_views(ws@) == words(text@),
            char_views(lines@) == wrap_scan(char_views(ws@).take(i as int), width as nat).0,
            current@ == wrap_scan(char_views(ws@).take(i as int), width as nat).1,
        decreases ws.len() - i,
    {
        let ghost all = char_views(ws@);
        proof {
            lemma_wrap_scan_bounded(all.take(i as int), width as nat);
        }
        assert(all.take(i + 1 as int).drop_last() =~= all.take(i as int));
        assert(all.take(i + 1 as int).last() == ws@[i as int]@);
        let word = &ws[i];
        if word.len() > width {
            if current.len() > 0 {
                let ghost before = char_views(lines@);
                lines.push(current);
                assert(char_views(lines@) =~= before.push(current@));
            }
            push_chunks(&mut lines, word, width);
            current = Vec::new();
        } else if current.len() >= width - word.len() {
            if current.len() > 0 {
                let ghost before = char_views(lines@);
                lines.push(current);
                assert(char_views(lines@) =~= before.push(current@));
            }
            current = word.clone();
        } else {
            if current.len() > 0 {
                current.push(' ');
            }
            let mut k: usize = 0;
            let ghost base = current@;
            while k < word.len()
                invariant
                    k <= word@.len(),
                    current@ == base + word@.take(k as int),
                decreases word.len() - k,
            {
                current.push(word[k]);
                k += 1;
                assert(current@ =~= base + word@.take(k as int));
            }
            assert(word@.take(word@.len() as int) =~= word@);
        }
        i += 1;
    }
    assert(char_views(ws@).take(ws@.len() as int) =~= char_views(ws@));
    if current.len() > 0 {
        let ghost before = char_views(lines@);
        lines.push(current);
        assert(char_views(lines@) =~= before.push(current@));
    }
    let mut out: Vec<String> = Vec::new();
    if lines.len() == 0 {
        out.push(String::from_str(text));
        assert(string_views(out@) =~= wrapped_lines(text@, width as nat));
        return out;
    }
    let mut j: usize = 0;
    while j < lines.len()
        invariant
            j <= lines@.len(),
            string_views(out@) == char_views(lines@).take(j as int),
        decreases lines.len() - j,
    {
        let ghost before = string_views(out@);
        let line = string_of(lines[j].as_slice());
        out.push(line);
        assert(string_views(out@) =~= before.push(char_views(lines@)[j as int]));
        j += 1;
        assert(string_views(out@) =~= char_views(lines@).take(j as int));
    }
    assert(char_views(lines@).take(j as int) =~= char_views(lines@));
    out
}

// ── Thousands separators ───────────────────────────────────────────────────

/// The decimal digit for a value below 10.
pub open spec fn digit_char(d: int) -> char {
    (48 + d) as char
}

/// The decimal representation of a number.
pub open spec fn decimal(n: nat) -> Seq<char>
    decreases n,
{
    if n < 10 {
        seq![digit_char(n as int)]
    } else {
        decimal(n / 10) + seq![digit_char((n % 10) as int)]
    }
}

/// Digits grouped by three from the right, the groups separated by commas.
pub open spec fn with_commas(ds: Seq<char>) -> Seq<char>
    decreases ds.len(),
{
    if ds.len() <= 3 {
        ds
    } else {
        with_commas(ds.take(ds.len() - 3)) + seq![','] + ds.skip(ds.len() - 3)
    }
}

/// Appends the decimal digits of `n`.
pub(crate) fn push_decimal(out: &mut Vec<char>, n: usize)
    ensures
        final(out)@ == old(out)@ + decimal(n as nat),
    decreases n,
{
    if n >= 10 {
        push_decimal(out, n / 10);
    }
    out.push(((n % 10) as u8 + 48u8) as char);
    assert(final(out)@ =~= old(out)@ + decimal(n as nat));
}

/// Appends `ds.take(n)` grouped by three from the right.
fn push_grouped(out: &mut Vec<char>, ds: &Vec<char>, n: usize)
    requires
        n <= ds@.len(),
    ensures
        final(out)@ == old(out)@ + with_commas(ds@.take(n as int)),
    decreases n,
{
    let ghost part = ds@.take(n as int);
    let start: usize = if n <= 3 {
        0
    } else {
        push_grouped(out, ds, n - 3);
        out.push(',');
        n - 3
    };
    let ghost mid = out@;
    let mut k = start;
    while k < n
        invariant
            start <= k <= n <= ds@.len(),
            out@ == mid + ds@.subrange(start as int, k as int),
        decreases n - k,
    {
        out.push(ds[k]);
        k += 1;
        assert(out@ =~= mid + ds@.subrange(start as int, k as int));
    }
    if n > 3 {
        assert(part.take(part.len() - 3) =~= ds@.take(n - 3));
        assert(part.skip(part.len() - 3) =~= ds@.subrange(start as int, n as int));
    } else {
        assert(ds@.subrange(0, n as int) =~= part);
    }
    assert(final(out)@ =~= old(out)@ + with_commas(part));
}

/// A count written with commas between groups of three digits, such as
/// `1,234,567`.
pub fn format_count(n: usize) -> (s: String)
    ensures
        s@ == with_commas(decimal(n as nat)),
{
    let mut ds: Vec<char> = Vec::new();
    push_decimal(&mut ds, n);
    assert(ds@ =~= decimal(n as nat));
    let mut out: Vec<char> = Vec::new();
    push_grouped(&mut out, &ds, ds.len());
    assert(ds@.take(ds@.len() as int) =~= ds@);
    assert(out@ =~= with_commas(decimal(n as nat)));
    string_of(out.as_slice())
}

// ── Reader mode ────────────────────────────────────────────────────────────

/// How a piece of reader-mode output is printed.
#[derive(Debug, PartialEq, Eq, Structural, Clone, Copy)]
pub enum Ink {
    /// As it is.
    Plain,
    /// Yellow, bold.
    Warning,
    /// Muted green.
    Muted,
    /// Muted green, italic.
    Meta,
    /// Bright green, bold.
    Title,
    /// Dark green.
    Rule,
    /// Pale green.
    Body,
}

/// A printed line as values: its pieces, each with its ink.
pub type PrintedV = Seq<(Seq<char>, Ink)>;

/// The values of printed lines.
pub open spec fn printed_view(v: Seq<Vec<(String, Ink)>>) -> Seq<PrintedV> {
    v.map_values(|l: Vec<(String, Ink)>| l@.map_values(|p: (String, Ink)| (p.0@, p.1)))
}

/// What is printed when no article could be extracted.
pub open spec fn no_article_lines() -> Seq<PrintedV> {
    seq![
        seq![],
        seq![("Could not extract any meaningful content from the page."@, Ink::Warning)],
        seq![],
        seq![("Possible reasons:"@, Ink::Muted)],
        seq![("  "@, Ink::Plain), ("• The page is behind a login wall or paywall"@, Ink::Muted)],
        seq![("  "@, Ink::Plain), ("• The site uses anti-bot protection (Cloudflare, DataDome, etc.)"@, Ink::Muted)],
        seq![("  "@, Ink::Plain), ("• The page is a JavaScript-only SPA"@, Ink::Muted)],
        seq![("  "@, Ink::Plain), ("• The page has no article content (video, image gallery, etc.)"@, Ink::Muted)],
        seq![],
    ]
}

/// The paragraphs read so far and the one being read, after scanning `s`: a
/// line feed right after a line feed that is not already part of a break
/// ends a paragraph (`str::split("\n\n")`).
pub open spec fn para_scan(s: Seq<char>) -> (Seq<Seq<char>>, Seq<char>)
    decreases s.len(),
{
    if s.len() == 0 {
        (seq![], seq![])
    } else {
        let (done, cur) = para_scan(s.drop_last());
        if s.last() == '\n' && cur.len() > 0 && cur.last() == '\n' {
            (done.push(cur.drop_last()), seq![])
        } else {
            (done, cur.push(s.last()))
        }
    }
}

/// The paragraphs of a text: the pieces between blank-line breaks.
pub open spec fn paragraphs(s: Seq<char>) -> Seq<Seq<char>> {
    let (done, cur) = para_scan(s);
    done.push(cur)
}

/// The printed lines of the first `n` lines of a paragraph: each line
/// trimmed and wrapped to the width, blank lines left out.
pub open spec fn para_lines(ls: Seq<Seq<char>>, n: nat, width: nat) -> Seq<PrintedV>
    decreases n,
{
    if n == 0 {
        seq![]
    } else {
        let t = trim(ls[n - 1]);
        para_lines(ls, (n - 1) as nat, width) + if t.len() == 0 {
            seq![]
        } else {
            wrapped_lines(t, width).map_values(|w: Seq<char>| seq![("  "@, Ink::Plain), (w, Ink::Body)])
        }
    }
}

/// The printed lines of the first `n` paragraphs, each followed by an empty
/// line.
pub open spec fn body_lines(ps: Seq<Seq<char>>, n: nat, width: nat) -> Seq<PrintedV>
    decreases n,
{
    if n == 0 {
        seq![]
    } else {
        let ls = crate::renderer::text_lines(ps[n - 1]);
        body_lines(ps, (n - 1) as nat, width) + para_lines(ls, ls.len(), width) + seq![seq![]]
    }
}

/// The parts of the line under the title: author, date and address, each
/// when present.
pub open spec fn meta_parts(a: crate::purify::ArticleV) -> Seq<Seq<char>> {
    (if a.1.len() > 0 {
        seq!["✍  "@ + a.1]
    } else {
        seq![]
    }) + (if a.2.len() > 0 {
        seq!["📅 "@ + a.2]
    } else {
        seq![]
    }) + (if a.4.len() > 0 {
        seq!["🔗 "@ + a.4]
    } else {
        seq![]
    })
}

/// The smaller of two numbers.
pub open spec fn min_nat(a: nat, b: nat) -> nat {
    if a <= b {
        a
    } else {
        b
    }
}

/// `width` less 4, or 0.
pub open spec fn less_margin(width: nat) -> nat {
    if width >= 4 {
        (width - 4) as nat
    } else {
        0
    }
}

/// The title with a rule under it, as long as the title but within the
/// width less 4; nothing for an article without a title.
pub open spec fn title_part(title: Seq<char>, width: nat) -> Seq<PrintedV> {
    if title.len() > 0 {
        seq![
            seq![],
            seq![("  "@ + title, Ink::Title)],
            seq![("  "@ + crate::renderer::repeat("─"@, min_nat(title.len(), less_margin(width))), Ink::Plain)],
            seq![],
        ]
    } else {
        seq![]
    }
}

/// The author, date and address on one line; nothing when all are empty.
pub open spec fn meta_part(a: crate::purify::ArticleV) -> Seq<PrintedV> {
    let parts = meta_parts(a);
    if parts.len() > 0 {
        seq![seq![("  "@, Ink::Plain), (join(parts, "  │  "@), Ink::Meta)], seq![]]
    } else {
        seq![]
    }
}

/// A rule across the width.
pub open spec fn rule_line(width: nat) -> PrintedV {
    seq![(crate::renderer::repeat("━"@, width), Ink::Rule)]
}

/// The paragraphs of the text wrapped to the body width.
pub open spec fn body_part(text: Seq<char>, body_width: nat) -> Seq<PrintedV> {
    let ps = paragraphs(text);
    body_lines(ps, ps.len(), body_width)
}

/// A rule, then the number of characters and words and the address.
pub open spec fn footer_part(text: Seq<char>, url: Seq<char>, width: nat) -> Seq<PrintedV> {
    let counts = with_commas(decimal(text.len())) + " chars  ·  "@ + with_commas(decimal(words(text).len()))
        + " words  ·  "@ + url;
    seq![rule_line(width), seq![("  "@, Ink::Plain), (counts, Ink::Meta)], seq![]]
}

/// What reader mode prints for an article: the title
/// with a rule under it, the author, date and address, a rule, the
/// paragraphs wrapped to the body width, a rule and a line of counts.
pub open spec fn article_lines(a: crate::purify::ArticleV, width: nat, body_text_width: nat) -> Seq<PrintedV> {
    title_part(a.0, width) + meta_part(a) + seq![rule_line(width), seq![]] + body_part(
        a.3,
        min_nat(less_margin(width), body_text_width),
    ) + footer_part(a.3, a.4, width)
}

/// The parts under the title, joined: author, date and address, each part
/// present, in that order.
proof fn lemma_meta_text(a: crate::purify::ArticleV)
    requires
        a.2.len() > 0,
    ensures
        join(meta_parts(a), "  │  "@) == (if a.1.len() > 0 {
            "✍  "@ + a.1 + "  │  "@
        } else {
            seq![]
        }) + "📅 "@ + a.2 + (if a.4.len() > 0 {
            "  │  "@ + "🔗 "@ + a.4
        } else {
            seq![]
        }),
{
    let sep = "  │  "@;
    let au: Seq<Seq<char>> = if a.1.len() > 0 {
        seq!["✍  "@ + a.1]
    } else {
        seq![]
    };
    let da = "📅 "@ + a.2;
    let ur: Seq<Seq<char>> = if a.4.len() > 0 {
        seq!["🔗 "@ + a.4]
    } else {
        seq![]
    };
    let parts = meta_parts(a);
    assert(parts == au + seq![da] + ur);
    if a.1.len() > 0 {
        if a.4.len() > 0 {
            assert(parts =~= seq![au[0], da, ur[0]]);
            assert(parts.drop_last() =~= seq![au[0], da]);
            assert(parts.drop_last().drop_last() =~= seq![au[0]]);
            assert(join(parts.drop_last().drop_last(), sep) == au[0]);
            assert(join(parts.drop_last(), sep) == au[0] + sep + da);
            assert(join(parts, sep) =~= au[0] + sep + da + (sep + ur[0]));
        } else {
            assert(parts =~= seq![au[0], da]);
            assert(parts.drop_last() =~= seq![au[0]]);
            assert(join(parts.drop_last(), sep) == au[0]);
            assert(join(parts, sep) =~= au[0] + sep + da + Seq::<char>::empty());
        }
    } else {
        if a.4.len() > 0 {
            assert(parts =~= seq![da, ur[0]]);
            assert(parts.drop_last() =~= seq![da]);
            assert(join(parts.drop_last(), sep) == da);
            assert(join(parts, sep) =~= Seq::<char>::empty() + da + (sep + ur[0]));
        } else {
            assert(parts =~= seq![da]);
            assert(join(parts, sep) =~= Seq::<char>::empty() + da + Seq::<char>::empty());
        }
    }
    let before = if a.1.len() > 0 {
        "✍  "@ + a.1 + "  │  "@
    } else {
        seq![]
    };
    let after = if a.4.len() > 0 {
        "  │  "@ + "🔗 "@ + a.4
    } else {
        seq![]
    };
    assert(join(parts, sep) =~= before + "📅 "@ + a.2 + after);
}

/// The line under the title shows the date when the article has one: after
/// the author (when there is one) and before the address (when there is one),
/// the parts separated by `  │  `.
pub proof fn law_meta_line_shows_date(a: crate::purify::ArticleV, width: nat, body_text_width: nat)
    requires
        a.2.len() > 0,
    ensures
        ({
            let k = if a.0.len() > 0 {
                4int
            } else {
                0int
            };
            let before = if a.1.len() > 0 {
                "✍  "@ + a.1 + "  │  "@
            } else {
                seq![]
            };
            let after = if a.4.len() > 0 {
                "  │  "@ + "🔗 "@ + a.4
            } else {
                seq![]
            };
            article_lines(a, width, body_text_width)[k] == seq![
                ("  "@, Ink::Plain),
                (before + "📅 "@ + a.2 + after, Ink::Meta),
            ]
        }),
{
    lemma_meta_text(a);
    let tp = title_part(a.0, width);
    let mp = meta_part(a);
    let rest = seq![rule_line(width), seq![]] + body_part(a.3, min_nat(less_margin(width), body_text_width))
        + footer_part(a.3, a.4, width);
    assert(article_lines(a, width, body_text_width) == tp + mp + rest);
    assert((tp + mp + rest)[tp.len() as int] == mp[0]);
    assert(tp.len() == if a.0.len() > 0 {
        4int
    } else {
        0int
    });
}

/// Appends a printed line.
fn print_line(out: &mut Vec<Vec<(String, Ink)>>, line: Vec<(String, Ink)>)
    ensures
        printed_view(final(out)@) == printed_view(old(out)@).push(line@.map_values(|p: (String, Ink)| (p.0@, p.1))),
{
    let ghost before = printed_view(out@);
    out.push(line);
    assert(printed_view(out@) =~= before.push(line@.map_values(|p: (String, Ink)| (p.0@, p.1))));
}

/// Appends a printed line of one piece.
fn print_one(out: &mut Vec<Vec<(String, Ink)>>, text: &[char], ink: Ink)
    ensures
        printed_view(final(out)@) == printed_view(old(out)@).push(seq![(text@, ink)]),
{
    let mut l: Vec<(String, Ink)> = Vec::new();
    l.push((string_of(text), ink));
    assert(l@.map_values(|p: (String, Ink)| (p.0@, p.1)) =~= seq![(text@, ink)]);
    print_line(out, l);
}

/// Appends a printed line of two spaces and a piece.
fn print_indented(out: &mut Vec<Vec<(String, Ink)>>, text: &[char], ink: Ink)
    ensures
        printed_view(final(out)@) == printed_view(old(out)@).push(seq![("  "@, Ink::Plain), (text@, ink)]),
{
    let mut l: Vec<(String, Ink)> = Vec::new();
    l.push((string_of(chars_of("  ").as_slice()), Ink::Plain));
    l.push((string_of(text), ink));
    assert(l@.map_values(|p: (String, Ink)| (p.0@, p.1)) =~= seq![("  "@, Ink::Plain), (text@, ink)]);
    print_line(out, l);
}

/// Appends an empty printed line.
fn print_empty(out: &mut Vec<Vec<(String, Ink)>>)
    ensures
        printed_view(final(out)@) == printed_view(old(out)@).push(seq![]),
{
    let l: Vec<(String, Ink)> = Vec::new();
    assert(l@.map_values(|p: (String, Ink)| (p.0@, p.1)) =~= Seq::<(Seq<char>, Ink)>::empty());
    print_line(out, l);
}

/// The paragraphs of a text.
fn split_paragraphs(s: &[char]) -> (r: Vec<Vec<char>>)
    ensures
        char_views(r@) == paragraphs(s@),
{
    let mut done: Vec<Vec<char>> = Vec::new();
    let mut cur: Vec<char> = Vec::new();
    let mut i: usize = 0;
    while i < s.len()
        invariant
            i <= s@.len(),
            char_views(done@) == para_scan(s@.take(i as int)).0,
            cur@ == para_scan(s@.take(i as int)).1,
        decreases s.len() - i,
    {
        assert(s@.take(i + 1 as int).drop_last() =~= s@.take(i as int));
        if s[i] == '\n' && cur.len() > 0 && cur[cur.len() - 1] == '\n' {
            cur.pop();
            let ghost before = char_views(done@);
            done.push(cur);
            assert(char_views(done@) =~= before.push(done@.last()@));
            cur = Vec::new();
        } else {
            cur.push(s[i]);
        }
        i += 1;
    }
    assert(s@.take(i as int) =~= s@);
    let ghost before = char_views(done@);
    done.push(cur);
    assert(char_views(done@) =~= before.push(done@.last()@));
    done
}

/// Appends the printed lines of a paragraph.
fn print_paragraph(out: &mut Vec<Vec<(String, Ink)>>, para: &[char], width: usize)
    ensures
        printed_view(final(out)@) == printed_view(old(out)@) + {
            let ls = crate::renderer::text_lines(para@);
            para_lines(ls, ls.len(), width as nat)
        },
{
    let ls = crate::renderer::text_lines_exec(para);
    let ghost lv = char_views(ls@);
    let ghost start = printed_view(out@);
    let mut i: usize = 0;
    while i < ls.len()
        invariant
            i <= ls@.len() == lv.len(),
            lv == char_views(ls@),
            printed_view(out@) == start + para_lines(lv, i as nat, width as nat),
        decreases ls.len() - i,
    {
        let t = crate::text::trim_chars(ls[i].as_slice());
        assert(t@ == trim(lv[i as int]));
        if t.len() > 0 {
            let ts = string_of(t.as_slice());
            let ws = word_wrap(ts.as_str(), width);
            let ghost wv = string_views(ws@);
            let ghost mid = printed_view(out@);
            let mut k: usize = 0;
            while k < ws.len()
                invariant
                    k <= ws@.len() == wv.len(),
                    wv == string_views(ws@),
                    printed_view(out@) == mid + wv.take(k as int).map_values(
                        |w: Seq<char>| seq![("  "@, Ink::Plain), (w, Ink::Body)],
                    ),
                decreases ws.len() - k,
            {
                let wc = chars_of(ws[k].as_str());
                print_indented(out, wc.as_slice(), Ink::Body);
                assert(wv.take(k + 1).map_values(|w: Seq<char>| seq![("  "@, Ink::Plain), (w, Ink::Body)])
                    =~= wv.take(k as int).map_values(|w: Seq<char>| seq![("  "@, Ink::Plain), (w, Ink::Body)]).push(
                    seq![("  "@, Ink::Plain), (wv[k as int], Ink::Body)],
                ));
                k += 1;
            }
            assert(wv.take(k as int) =~= wv);
        }
        assert(printed_view(out@) =~= start + para_lines(lv, (i + 1) as nat, width as nat));
        i += 1;
    }
}

/// The parts of the line under the title.
fn meta_part_list(a: &crate::purify::Article) -> (r: Vec<Vec<char>>)
    ensures
        char_views(r@) == meta_parts(crate::purify::article_view(*a)),
{
    let mut parts: Vec<Vec<char>> = Vec::new();
    let author = chars_of(a.author.as_str());
    if author.len() > 0 {
        parts.push(crate::renderer::lit_cat("✍  ", author.as_slice()));
    }
    let date = chars_of(a.date.as_str());
    if date.len() > 0 {
        parts.push(crate::renderer::lit_cat("📅 ", date.as_slice()));
    }
    let url = chars_of(a.url.as_str());
    if url.len() > 0 {
        parts.push(crate::renderer::lit_cat("🔗 ", url.as_slice()));
    }
    assert(char_views(parts@) =~= meta_parts(crate::purify::article_view(*a)));
    parts
}

/// Appends what is printed when no article could be extracted.
fn print_no_article(out: &mut Vec<Vec<(String, Ink)>>)
    ensures
        printed_view(final(out)@) == printed_view(old(out)@) + no_article_lines(),
{
    print_empty(out);
    print_one(out, chars_of("Could not extract any meaningful content from the page.").as_slice(), Ink::Warning);
    print_empty(out);
    print_one(out, chars_of("Possible reasons:").as_slice(), Ink::Muted);
    print_indented(out, chars_of("• The page is behind a login wall or paywall").as_slice(), Ink::Muted);
    print_indented(out, chars_of("• The site uses anti-bot protection (Cloudflare, DataDome, etc.)").as_slice(), Ink::Muted);
    print_indented(out, chars_of("• The page is a JavaScript-only SPA").as_slice(), Ink::Muted);
    print_indented(out, chars_of("• The page has no article content (video, image gallery, etc.)").as_slice(), Ink::Muted);
    print_empty(out);
    assert(printed_view(out@) =~= printed_view(old(out)@) + no_article_lines());
}

/// Appends the title block.
fn print_title(out: &mut Vec<Vec<(String, Ink)>>, title: &[char], width: usize)
    ensures
        printed_view(final(out)@) == printed_view(old(out)@) + title_part(title@, width as nat),
{
    if title.len() > 0 {
        let margin = if width >= 4 { width - 4 } else { 0 };
        print_empty(out);
        print_one(out, crate::renderer::lit_cat("  ", title).as_slice(), Ink::Title);
        let n = if title.len() <= margin { title.len() } else { margin };
        let dashes = crate::renderer::repeat_chars("─", n);
        print_one(out, crate::renderer::lit_cat("  ", dashes.as_slice()).as_slice(), Ink::Plain);
        print_empty(out);
    }
    assert(printed_view(out@) =~= printed_view(old(out)@) + title_part(title@, width as nat));
}

/// Appends the line of author, date and address.
fn print_meta(out: &mut Vec<Vec<(String, Ink)>>, a: &crate::purify::Article)
    ensures
        printed_view(final(out)@) == printed_view(old(out)@) + meta_part(crate::purify::article_view(*a)),
{
    let parts = meta_part_list(a);
    if parts.len() > 0 {
        let mut joined: Vec<char> = Vec::new();
        let sep = chars_of("  │  ");
        let mut k: usize = 0;
        let ghost pv = char_views(parts@);
        while k < parts.len()
            invariant
                k <= parts@.len() == pv.len(),
                pv == char_views(parts@),
                sep@ == "  │  "@,
                joined@ == join(pv.take(k as int), "  │  "@),
            decreases parts.len() - k,
        {
            assert(pv.take(k + 1 as int).drop_last() =~= pv.take(k as int));
            if k > 0 {
                crate::text::extend_chars(&mut joined, sep.as_slice());
            }
            crate::text::extend_chars(&mut joined, parts[k].as_slice());
            proof {
                if k == 0 {
                    assert(pv.take(1)[0] == pv[0]);
                    assert(joined@ =~= join(pv.take(1), "  │  "@));
                } else {
                    assert(joined@ =~= join(pv.take(k + 1 as int), "  │  "@));
                }
            }
            k += 1;
        }
        assert(pv.take(k as int) =~= pv);
        print_indented(out, joined.as_slice(), Ink::Meta);
        print_empty(out);
    }
    assert(printed_view(out@) =~= printed_view(old(out)@) + meta_part(crate::purify::article_view(*a)));
}

/// Appends the paragraphs of the text.
fn print_body(out: &mut Vec<Vec<(String, Ink)>>, text: &[char], body_width: usize)
    ensures
        printed_view(final(out)@) == printed_view(old(out)@) + body_part(text@, body_width as nat),
{
    let ghost head = printed_view(out@);
    let ps = split_paragraphs(text);
    let ghost psv = char_views(ps@);
    let mut i: usize = 0;
    assert(head + body_lines(psv, 0, body_width as nat) =~= head);
    while i < ps.len()
        invariant
            i <= ps@.len() == psv.len(),
            psv == char_views(ps@),
            printed_view(out@) == head + body_lines(psv, i as nat, body_width as nat),
        decreases ps.len() - i,
    {
        print_paragraph(out, ps[i].as_slice(), body_width);
        print_empty(out);
        assert(printed_view(out@) =~= head + body_lines(psv, (i + 1) as nat, body_width as nat));
        i += 1;
    }
}

/// Appends the closing rule and the counts.
fn print_footer(out: &mut Vec<Vec<(String, Ink)>>, text: &[char], url: &[char], width: usize)
    ensures
        printed_view(final(out)@) == printed_view(old(out)@) + footer_part(text@, url@, width as nat),
{
    let rule = crate::renderer::repeat_chars("━", width);
    print_one(out, rule.as_slice(), Ink::Rule);
    let word_list = split_whitespace(text);
    let mut counts = chars_of(format_count(text.len()).as_str());
    crate::text::extend_chars(&mut counts, chars_of(" chars  ·  ").as_slice());
    crate::text::extend_chars(&mut counts, chars_of(format_count(word_list.len()).as_str()).as_slice());
    crate::text::extend_chars(&mut counts, chars_of(" words  ·  ").as_slice());
    crate::text::extend_chars(&mut counts, url);
    print_indented(out, counts.as_slice(), Ink::Meta);
    print_empty(out);
    assert(printed_view(out@) =~= printed_view(old(out)@) + footer_part(text@, url@, width as nat));
}

/// What reader mode prints for an article, or for no article, as lines of
/// coloured pieces; the printing itself is left to the caller.
pub fn article_layout(article: &Option<crate::purify::Article>, width: usize, body_text_width: usize) -> (r: Vec<Vec<(String, Ink)>>)
    ensures
        printed_view(r@) == match article {
            Some(a) => article_lines(crate::purify::article_view(*a), width as nat, body_text_width as nat),
            None => no_article_lines(),
        },
{
    let mut out: Vec<Vec<(String, Ink)>> = Vec::new();
    match article {
        None => {
            print_no_article(&mut out);
            assert(printed_view(out@) =~= no_article_lines());
        },
        Some(a) => {
            let title = chars_of(a.title.as_str());
            print_title(&mut out, title.as_slice(), width);
            print_meta(&mut out, a);
            let rule = crate::renderer::repeat_chars("━", width);
            print_one(&mut out, rule.as_slice(), Ink::Rule);
            print_empty(&mut out);
            let margin = if width >= 4 { width - 4 } else { 0 };
            let body_width = if margin <= body_text_width { margin } else { body_text_width };
            let text = chars_of(a.text.as_str());
            print_body(&mut out, text.as_slice(), body_width);
            let url = chars_of(a.url.as_str());
            print_footer(&mut out, text.as_slice(), url.as_slice(), width);
            assert(printed_view(out@) =~= article_lines(crate::purify::article_view(*a), width as nat, body_text_width as nat));
        },
    }
    out
}

} // verus!
