//! Character-level text operations shared by the whole library.
//!
//! Strings are modelled by their view, a `Seq<char>`. The few questions that
//! only Unicode tables can answer (is a character white space, is it
//! alphanumeric, what is the lower-case form of a string) are asked of `std`
//! through the trusted items at the top of this file; everything else is
//! written and proved here.
use vstd::prelude::*;
use vstd::utf8::{encode_scalar, encode_utf8};

verus! {

broadcast use vstd::string::group_string_axioms;

// ── Questions answered by Unicode tables ───────────────────────────────────

/// Whether a character has the Unicode `White_Space` property.
pub uninterp spec fn white_space(c: char) -> bool;

/// Whether a character is alphabetic or numeric in the Unicode sense.
pub uninterp spec fn alphanumeric(c: char) -> bool;

/// The lower-case form of a string, as the Unicode case tables give it.
pub uninterp spec fn unicode_lowercase(s: Seq<char>) -> Seq<char>;

/// Calls `char::is_whitespace`. Its documentation says that it is true exactly
/// for the characters with the `White_Space` property, which `white_space`
/// names; it lists the space and the line feed among them, and no ASCII
/// letter or digit is one.
#[verifier::external_body]
pub(crate) fn char_is_whitespace(c: char) -> (b: bool)
    ensures
        b == white_space(c),
        c == ' ' ==> b,
        c == '\n' ==> b,
        ('a' <= c <= 'z' || 'A' <= c <= 'Z' || '0' <= c <= '9') ==> !b,
{
    c.is_whitespace()
}

/// Calls `char::is_alphanumeric`, documented as "alphabetic or numeric";
/// that Unicode predicate is named `alphanumeric`. Among the ASCII
/// characters exactly the letters and digits have it: punctuation, symbols,
/// the space and the control characters do not.
#[verifier::external_body]
pub(crate) fn char_is_alphanumeric(c: char) -> (b: bool)
    ensures
        b == alphanumeric(c),
        ('a' <= c <= 'z' || 'A' <= c <= 'Z' || '0' <= c <= '9') ==> b,
        (c as u32) < 128 && !('a' <= c <= 'z' || 'A' <= c <= 'Z' || '0' <= c <= '9') ==> !b,
{
    c.is_alphanumeric()
}

/// The lower-case form of an ASCII character: `A` to `Z` become `a` to `z`,
/// every other character stays.
pub open spec fn ascii_lower(c: char) -> char {
    if 'A' <= c <= 'Z' {
        ((c as u32) + 32) as char
    } else {
        c
    }
}

/// Every character of the text is ASCII.
pub open spec fn all_ascii(s: Seq<char>) -> bool {
    forall|i: int| 0 <= i < s.len() ==> (#[trigger] s[i] as u32) < 128
}

/// The lower-case form of a string: for a text of ASCII characters, each
/// capital letter becomes its small letter; otherwise what the Unicode case
/// tables give.
pub open spec fn lowercase(s: Seq<char>) -> Seq<char> {
    if all_ascii(s) {
        s.map_values(|c: char| ascii_lower(c))
    } else {
        unicode_lowercase(s)
    }
}

/// Calls `str::to_lowercase`, whose result the Unicode case tables decide
/// and which depends on the string alone; that result is named
/// `unicode_lowercase`. Those tables map the ASCII capitals to the ASCII
/// small letters and leave every other ASCII character as it is, so a text of
/// ASCII characters is lower-cased one character for one.
#[verifier::external_body]
pub(crate) fn str_to_lowercase(s: &str) -> (r: String)
    ensures
        r@ == unicode_lowercase(s@),
        all_ascii(s@) ==> r@ == s@.map_values(|c: char| ascii_lower(c)),
{
    s.to_lowercase()
}

/// Calls `String::push`, which appends one character.
#[verifier::external_body]
pub(crate) fn push_char(s: &mut String, c: char)
    ensures
        final(s)@ == old(s)@.push(c),
{
    s.push(c)
}

// ── Conversions ────────────────────────────────────────────────────────────

/// The characters of a string slice, in order.
pub fn chars_of(s: &str) -> (v: Vec<char>)
    ensures
        v@ == s@,
{
    let mut v: Vec<char> = Vec::new();
    for c in it: s.chars()
        invariant
            v@ == it.seq().take(it.index() as int),
    {
        v.push(c);
    }
    v
}

/// A string made of the given characters.
pub fn string_of(v: &[char]) -> (s: String)
    ensures
        s@ == v@,
{
    let mut s = String::new();
    let mut i: usize = 0;
    while i < v.len()
        invariant
            i <= v.len(),
            s@ == v@.take(i as int),
        decreases v.len() - i,
    {
        push_char(&mut s, v[i]);
        i += 1;
        assert(v@.take(i as int) =~= v@.take(i - 1 as int).push(v@[i - 1]));
    }
    assert(v@.take(v.len() as int) =~= v@);
    s
}


// ── Whitespace trimming ─────────────────────────────────────────────────────

/// The string without its leading white space.
pub open spec fn trim_start(s: Seq<char>) -> Seq<char>
    decreases s.len(),
{
    if s.len() > 0 && white_space(s[0]) {
        trim_start(s.drop_first())
    } else {
        s
    }
}

/// The string without its trailing white space.
pub open spec fn trim_end(s: Seq<char>) -> Seq<char>
    decreases s.len(),
{
    if s.len() > 0 && white_space(s.last()) {
        trim_end(s.drop_last())
    } else {
        s
    }
}

/// Trimming the start leaves a text that begins with no white space.
pub proof fn lemma_trim_start_first(s: Seq<char>)
    ensures
        trim_start(s).len() > 0 ==> !white_space(trim_start(s)[0]),
    decreases s.len(),
{
    if s.len() > 0 && white_space(s[0]) {
        lemma_trim_start_first(s.drop_first());
    }
}

/// A text with a character that is not white space keeps something when
/// its start is trimmed.
pub proof fn lemma_trim_start_not_empty(s: Seq<char>, j: int)
    requires
        0 <= j < s.len(),
        !white_space(s[j]),
    ensures
        trim_start(s).len() > 0,
    decreases s.len(),
{
    if white_space(s[0]) {
        assert(s.drop_first()[j - 1] == s[j]);
        lemma_trim_start_not_empty(s.drop_first(), j - 1);
    }
}

/// A text that begins with a character that is not white space keeps
/// something when its end is trimmed.
pub proof fn lemma_trim_end_not_empty(s: Seq<char>)
    requires
        s.len() > 0,
        !white_space(s[0]),
    ensures
        trim_end(s).len() > 0,
    decreases s.len(),
{
    if white_space(s.last()) {
        assert(s.len() > 1);
        assert(s.drop_last()[0] == s[0]);
        lemma_trim_end_not_empty(s.drop_last());
    }
}

/// The string without leading and trailing white space (`str::trim`).
pub open spec fn trim(s: Seq<char>) -> Seq<char> {
    trim_end(trim_start(s))
}

/// Trimming keeps a contiguous piece of the string.
pub proof fn lemma_trim_start_is_suffix(s: Seq<char>)
    ensures
        exists|a: int| 0 <= a <= s.len() && trim_start(s) == s.skip(a),
    decreases s.len(),
{
    if s.len() > 0 && white_space(s[0]) {
        lemma_trim_start_is_suffix(s.drop_first());
        let a = choose|a: int| 0 <= a <= s.drop_first().len() && trim_start(s.drop_first()) == s.drop_first().skip(a);
        assert(s.drop_first().skip(a) =~= s.skip(a + 1));
    } else {
        assert(s.skip(0) =~= s);
    }
}

/// Trimming the end keeps a prefix of the string.
pub proof fn lemma_trim_end_is_prefix(s: Seq<char>)
    ensures
        exists|b: int| 0 <= b <= s.len() && trim_end(s) == s.take(b),
    decreases s.len(),
{
    if s.len() > 0 && white_space(s.last()) {
        lemma_trim_end_is_prefix(s.drop_last());
        let b = choose|b: int| 0 <= b <= s.drop_last().len() && trim_end(s.drop_last()) == s.drop_last().take(b);
        assert(s.drop_last().take(b) =~= s.take(b));
    } else {
        assert(s.take(s.len() as int) =~= s);
    }
}

/// A trimmed string is never longer than the string it came from.
pub proof fn lemma_trim_len(s: Seq<char>)
    ensures
        trim(s).len() <= s.len(),
        trim_start(s).len() <= s.len(),
{
    lemma_trim_start_is_suffix(s);
    lemma_trim_end_is_prefix(trim_start(s));
}

/// `trim` of a string slice, as a vector of characters.
pub fn trim_chars(s: &[char]) -> (r: Vec<char>)
    ensures
        r@ == trim(s@),
{
    let n = s.len();
    let mut a: usize = 0;
    assert(s@.skip(0) =~= s@);
    while a < n && char_is_whitespace(s[a])
        invariant
            a <= n == s@.len(),
            trim_start(s@) == trim_start(s@.skip(a as int)),
        decreases n - a,
    {
        assert(s@.skip(a as int).drop_first() =~= s@.skip(a + 1 as int));
        a += 1;
    }
    assert(trim_start(s@.skip(a as int)) == s@.skip(a as int));
    let mut b: usize = n;
    while b > a && char_is_whitespace(s[b - 1])
        invariant
            a <= b <= n == s@.len(),
            trim(s@) == trim_end(s@.subrange(a as int, b as int)),
        decreases b - a,
    {
        assert(s@.subrange(a as int, b as int).drop_last() =~= s@.subrange(a as int, b - 1 as int));
        b -= 1;
    }
    assert(s@.skip(a as int) =~= s@.subrange(a as int, n as int));
    let mut r: Vec<char> = Vec::new();
    let mut i = a;
    while i < b
        invariant
            a <= i <= b <= n == s@.len(),
            r@ == s@.subrange(a as int, i as int),
        decreases b - i,
    {
        r.push(s[i]);
        i += 1;
        assert(r@ =~= s@.subrange(a as int, i as int));
    }
    r
}

/// `str::trim`, giving the characters of the trimmed slice.
pub fn trim_str(s: &str) -> (r: Vec<char>)
    ensures
        r@ == trim(s@),
{
    let v = chars_of(s);
    trim_chars(v.as_slice())
}

// ── Substrings ─────────────────────────────────────────────────────────────

/// `needle` occurs in `hay` starting at position `i`.
pub open spec fn occurs_at(hay: Seq<char>, needle: Seq<char>, i: int) -> bool {
    0 <= i && i + needle.len() <= hay.len() && hay.subrange(i, i + needle.len()) == needle
}

/// `needle` occurs somewhere in `hay` (`str::contains`).
pub open spec fn contains(hay: Seq<char>, needle: Seq<char>) -> bool {
    exists|i: int| occurs_at(hay, needle, i)
}

/// `hay` begins with `prefix` (`str::starts_with`).
pub open spec fn starts_with(hay: Seq<char>, prefix: Seq<char>) -> bool {
    occurs_at(hay, prefix, 0)
}

/// Whether `needle` occurs in `hay` at position `i`.
pub fn occurs_at_exec(hay: &[char], needle: &[char], i: usize) -> (b: bool)
    ensures
        b == occurs_at(hay@, needle@, i as int),
{
    if i > hay.len() || needle.len() > hay.len() - i {
        return false;
    }
    let mut k: usize = 0;
    while k < needle.len()
        invariant
            i + needle@.len() <= hay@.len(),
            hay@.len() == hay.len(),
            needle@.len() == needle.len(),
            k <= needle@.len(),
            forall|j: int| 0 <= j < k ==> hay@[i + j] == needle@[j],
        decreases needle.len() - k,
    {
        if hay[i + k] != needle[k] {
            assert(hay@.subrange(i as int, i + needle@.len())[k as int] != needle@[k as int]);
            return false;
        }
        k += 1;
    }
    assert(hay@.subrange(i as int, i + needle@.len()) =~= needle@);
    true
}

/// `str::contains` on character sequences.
pub fn contains_chars(hay: &[char], needle: &[char]) -> (b: bool)
    ensures
        b == contains(hay@, needle@),
{
    if needle.len() > hay.len() {
        return false;
    }
    let limit = hay.len() - needle.len();
    let mut i: usize = 0;
    while i < limit
        invariant
            needle@.len() <= hay@.len(),
            limit == hay@.len() - needle@.len(),
            i <= limit,
            forall|j: int| 0 <= j < i ==> !occurs_at(hay@, needle@, j),
        decreases limit - i,
    {
        if occurs_at_exec(hay, needle, i) {
            return true;
        }
        i += 1;
    }
    if occurs_at_exec(hay, needle, limit) {
        return true;
    }
    assert forall|j: int| !occurs_at(hay@, needle@, j) by {
        if 0 <= j < limit {
        }
    }
    false
}

/// `str::starts_with` on character sequences.
pub fn starts_with_chars(hay: &[char], prefix: &[char]) -> (b: bool)
    ensures
        b == starts_with(hay@, prefix@),
{
    occurs_at_exec(hay, prefix, 0)
}

/// Whether two character sequences are equal.
pub fn chars_equal(a: &[char], b: &[char]) -> (r: bool)
    ensures
        r == (a@ == b@),
{
    if a.len() != b.len() {
        return false;
    }
    let r = occurs_at_exec(a, b, 0);
    assert(r ==> a@.subrange(0, b@.len() as int) =~= a@);
    assert(a@ == b@ ==> a@.subrange(0, b@.len() as int) =~= a@);
    r
}

/// Whether the character `c` occurs in `s`.
pub fn has_char(s: &[char], c: char) -> (r: bool)
    ensures
        r == s@.contains(c),
{
    let mut i: usize = 0;
    while i < s.len()
        invariant
            i <= s@.len(),
            forall|k: int| 0 <= k < i ==> s@[k] != c,
        decreases s.len() - i,
    {
        if s[i] == c {
            return true;
        }
        i += 1;
    }
    false
}

/// Appends all of `src` to `dst`.
pub fn extend_chars(dst: &mut Vec<char>, src: &[char])
    ensures
        final(dst)@ == old(dst)@ + src@,
{
    let mut k: usize = 0;
    while k < src.len()
        invariant
            k <= src@.len(),
            dst@ == old(dst)@ + src@.take(k as int),
        decreases src.len() - k,
    {
        dst.push(src[k]);
        k += 1;
        assert(dst@ =~= old(dst)@ + src@.take(k as int));
    }
    assert(src@.take(src@.len() as int) =~= src@);
}

// ── Replacement ────────────────────────────────────────────────────────────

/// Every occurrence of a non-empty `pat`, found from left to right without
/// overlap, replaced by `rep` (`str::replace`).
pub open spec fn replace_all(s: Seq<char>, pat: Seq<char>, rep: Seq<char>) -> Seq<char>
    decreases s.len(),
{
    if pat.len() == 0 || s.len() == 0 {
        s
    } else if starts_with(s, pat) {
        rep + replace_all(s.skip(pat.len() as int), pat, rep)
    } else {
        seq![s[0]] + replace_all(s.drop_first(), pat, rep)
    }
}

/// `str::replace` with a non-empty pattern.
pub fn replace_chars(s: &[char], pat: &[char], rep: &[char]) -> (r: Vec<char>)
    requires
        pat@.len() > 0,
    ensures
        r@ == replace_all(s@, pat@, rep@),
{
    let mut out: Vec<char> = Vec::new();
    let mut i: usize = 0;
    assert(s@.skip(0) =~= s@);
    while i < s.len()
        invariant
            i <= s@.len(),
            pat@.len() > 0,
            replace_all(s@, pat@, rep@) == out@ + replace_all(s@.skip(i as int), pat@, rep@),
        decreases s.len() - i,
    {
        let ghost rest = s@.skip(i as int);
        if occurs_at_exec(s, pat, i) {
            assert(rest.subrange(0, pat@.len() as int) =~= s@.subrange(i as int, i + pat@.len()));
            assert(rest.skip(pat@.len() as int) =~= s@.skip(i + pat@.len()));
            let mut k: usize = 0;
            let ghost before = out@;
            while k < rep.len()
                invariant
                    k <= rep@.len(),
                    out@ == before + rep@.take(k as int),
                decreases rep.len() - k,
            {
                out.push(rep[k]);
                k += 1;
                assert(out@ =~= before + rep@.take(k as int));
            }
            assert(rep@.take(rep@.len() as int) =~= rep@);
            assert(out@ + replace_all(s@.skip(i + pat@.len()), pat@, rep@) =~= before + (rep@
                + replace_all(rest.skip(pat@.len() as int), pat@, rep@)));
            i = i + pat.len();
        } else {
            assert(!starts_with(rest, pat@)) by {
                if starts_with(rest, pat@) {
                    assert(rest.subrange(0, pat@.len() as int) =~= s@.subrange(i as int, i + pat@.len()));
                }
            }
            assert(rest.drop_first() =~= s@.skip(i + 1));
            let ghost before = out@;
            out.push(s[i]);
            assert(out@ + replace_all(s@.skip(i + 1), pat@, rep@) =~= before + (seq![rest[0]]
                + replace_all(rest.drop_first(), pat@, rep@)));
            i = i + 1;
        }
    }
    assert(out@ + replace_all(s@.skip(i as int), pat@, rep@) =~= out@);
    out
}

// ── Splitting at white space ───────────────────────────────────────────────

/// The words found so far and the word being read, after scanning `s` from
/// left to right, a word being a maximal run of characters that are not white
/// space.
pub open spec fn word_scan(s: Seq<char>) -> (Seq<Seq<char>>, Seq<char>)
    decreases s.len(),
{
    if s.len() == 0 {
        (seq![], seq![])
    } else {
        let (done, cur) = word_scan(s.drop_last());
        let c = s.last();
        if white_space(c) {
            if cur.len() > 0 {
                (done.push(cur), seq![])
            } else {
                (done, cur)
            }
        } else {
            (done, cur.push(c))
        }
    }
}

/// The words of `s`, in order (`str::split_whitespace`).
pub open spec fn words(s: Seq<char>) -> Seq<Seq<char>> {
    let (done, cur) = word_scan(s);
    if cur.len() > 0 {
        done.push(cur)
    } else {
        done
    }
}

/// Every word found so far is non-empty.
pub proof fn lemma_word_scan_nonempty(s: Seq<char>)
    ensures
        forall|i: int| 0 <= i < word_scan(s).0.len() ==> (#[trigger] word_scan(s).0[i]).len() > 0,
    decreases s.len(),
{
    if s.len() > 0 {
        lemma_word_scan_nonempty(s.drop_last());
        let prev = word_scan(s.drop_last());
        let c = s.last();
        if white_space(c) && prev.1.len() > 0 {
            assert forall|i: int| 0 <= i < word_scan(s).0.len() implies (#[trigger] word_scan(s).0[i]).len() > 0 by {
                if i < prev.0.len() {
                    assert(word_scan(s).0[i] == prev.0[i]);
                }
            }
        }
    }
}

/// Every word of a string is non-empty.
pub proof fn lemma_words_nonempty(s: Seq<char>)
    ensures
        forall|i: int| 0 <= i < words(s).len() ==> (#[trigger] words(s)[i]).len() > 0,
{
    lemma_word_scan_nonempty(s);
    let (done, cur) = word_scan(s);
    if cur.len() > 0 {
        assert forall|i: int| 0 <= i < words(s).len() implies (#[trigger] words(s)[i]).len() > 0 by {
            if i < done.len() {
                assert(words(s)[i] == done[i]);
            }
        }
    }
}

/// The views of a sequence of character vectors.
pub open spec fn char_views(v: Seq<Vec<char>>) -> Seq<Seq<char>> {
    v.map_values(|x: Vec<char>| x@)
}

/// `str::split_whitespace`, collected into vectors of characters.
pub fn split_whitespace(s: &[char]) -> (r: Vec<Vec<char>>)
    ensures
        char_views(r@) == words(s@),
{
    let mut done: Vec<Vec<char>> = Vec::new();
    let mut cur: Vec<char> = Vec::new();
    let mut i: usize = 0;
    while i < s.len()
        invariant
            i <= s@.len(),
            done@.len() == word_scan(s@.take(i as int)).0.len(),
            forall|k: int| 0 <= k < done@.len() ==> #[trigger] done@[k]@ == word_scan(s@.take(i as int)).0[k],
            cur@ == word_scan(s@.take(i as int)).1,
        decreases s.len() - i,
    {
        assert(s@.take(i + 1 as int).drop_last() =~= s@.take(i as int));
        let c = s[i];
        if char_is_whitespace(c) {
            if cur.len() > 0 {
                let w = cur;
                done.push(w);
                cur = Vec::new();
            }
        } else {
            cur.push(c);
        }
        i += 1;
    }
    assert(s@.take(s@.len() as int) =~= s@);
    if cur.len() > 0 {
        done.push(cur);
    }
    assert(char_views(done@) =~= words(s@));
    done
}

/// The number of bytes of a character in UTF-8.
pub fn utf8_width(c: char) -> (w: usize)
    ensures
        w == encode_scalar(c as u32).len(),
{
    proof {
        vstd::utf8::char_is_scalar(c);
    }
    let v = c as u32;
    if v < 0x80 {
        1
    } else if v < 0x800 {
        2
    } else if v < 0x10000 {
        3
    } else {
        4
    }
}

/// Whether the text takes more than `n` bytes in UTF-8 (`str::len() > n`).
pub fn utf8_longer_than(t: &[char], n: usize) -> (b: bool)
    ensures
        b == (encode_utf8(t@).len() > n),
{
    let mut acc: usize = 0;
    let mut i: usize = 0;
    assert(t@.skip(0) =~= t@);
    while i < t.len()
        invariant
            i <= t@.len(),
            acc <= n,
            encode_utf8(t@).len() == acc + encode_utf8(t@.skip(i as int)).len(),
        decreases t.len() - i,
    {
        let ghost rest = t@.skip(i as int);
        assert(rest[0] == t@[i as int]);
        assert(rest.drop_first() =~= t@.skip(i + 1));
        let w = utf8_width(t[i]);
        if w > n - acc {
            return true;
        }
        acc = acc + w;
        i += 1;
    }
    assert(t@.skip(i as int) =~= Seq::<char>::empty());
    false
}

/// The parts with the separator between them.
pub open spec fn join(parts: Seq<Seq<char>>, sep: Seq<char>) -> Seq<char>
    decreases parts.len(),
{
    if parts.len() == 0 {
        seq![]
    } else if parts.len() == 1 {
        parts[0]
    } else {
        join(parts.drop_last(), sep) + sep + parts.last()
    }
}

/// The parts joined with the separator between them.
pub fn join_with(parts: &Vec<Vec<char>>, sep: char) -> (r: Vec<char>)
    ensures
        r@ == join(char_views(parts@), seq![sep]),
{
    let ghost pv = char_views(parts@);
    let mut out: Vec<char> = Vec::new();
    let mut i: usize = 0;
    while i < parts.len()
        invariant
            i <= parts@.len(),
            pv == char_views(parts@),
            out@ == join(pv.take(i as int), seq![sep]),
        decreases parts.len() - i,
    {
        assert(pv.take(i + 1 as int).drop_last() =~= pv.take(i as int));
        if i > 0 {
            out.push(sep);
        }
        extend_chars(&mut out, parts[i].as_slice());
        proof {
            if i == 0 {
                assert(pv.take(1)[0] == pv[0]);
                assert(out@ =~= join(pv.take(1), seq![sep]));
            } else {
                assert(out@ =~= join(pv.take(i + 1 as int), seq![sep]));
            }
        }
        i += 1;
    }
    assert(pv.take(i as int) =~= pv);
    out
}

/// The UTF-8 length of a text (`str::len`), counted without overflow.
pub fn utf8_len(t: &[char]) -> (n: u128)
    ensures
        n == encode_utf8(t@).len(),
        n <= 4 * t@.len(),
{
    let mut acc: u128 = 0;
    let mut i: usize = 0;
    assert(t@.skip(0) =~= t@);
    while i < t.len()
        invariant
            i <= t@.len(),
            acc <= 4 * i,
            encode_utf8(t@).len() == acc + encode_utf8(t@.skip(i as int)).len(),
        decreases t.len() - i,
    {
        let ghost rest = t@.skip(i as int);
        assert(rest[0] == t@[i as int]);
        assert(rest.drop_first() =~= t@.skip(i + 1));
        let w = utf8_width(t[i]);
        acc = acc + w as u128;
        i += 1;
    }
    assert(t@.skip(i as int) =~= Seq::<char>::empty());
    acc
}

/// A text takes at most four bytes per character in UTF-8.
pub proof fn lemma_utf8_len_bound(t: Seq<char>)
    ensures
        encode_utf8(t).len() <= 4 * t.len(),
    decreases t.len(),
{
    if t.len() > 0 {
        lemma_utf8_len_bound(t.drop_first());
    }
}

// ── Substrings of substrings ───────────────────────────────────────────────

/// A part of a part of a text is a part of the text.
pub proof fn lemma_contains_trans(a: Seq<char>, b: Seq<char>, c: Seq<char>)
    requires
        contains(a, b),
        contains(b, c),
    ensures
        contains(a, c),
{
    let i = choose|i: int| occurs_at(a, b, i);
    let j = choose|j: int| occurs_at(b, c, j);
    assert(a.subrange(i + j, i + j + c.len()) =~= b.subrange(j, j + c.len()));
    assert(occurs_at(a, c, i + j));
}

/// The characters from `i` to `j` are a part of the text.
pub proof fn lemma_subrange_contained(s: Seq<char>, i: int, j: int)
    requires
        0 <= i <= j <= s.len(),
    ensures
        contains(s, s.subrange(i, j)),
{
    assert(occurs_at(s, s.subrange(i, j), i));
}

/// A trimmed text is a part of the text.
pub proof fn lemma_trim_contained(s: Seq<char>)
    ensures
        contains(s, trim(s)),
{
    lemma_trim_start_is_suffix(s);
    let a = choose|a: int| 0 <= a <= s.len() && trim_start(s) == s.skip(a);
    lemma_trim_end_is_prefix(trim_start(s));
    let b = choose|b: int| 0 <= b <= trim_start(s).len() && trim_end(trim_start(s)) == trim_start(s).take(b);
    assert(trim(s) =~= s.subrange(a, a + b));
    lemma_subrange_contained(s, a, a + b);
}

/// A trimmed text that is not empty begins with a character that is not
/// white space.
pub proof fn lemma_trim_first_not_white(s: Seq<char>)
    ensures
        trim(s).len() > 0 ==> !white_space(trim(s)[0]),
{
    lemma_trim_start_first(s);
    lemma_trim_end_is_prefix(trim_start(s));
}

/// A text with a character that is not white space is not empty once
/// trimmed.
pub proof fn lemma_trim_not_empty(s: Seq<char>, j: int)
    requires
        0 <= j < s.len(),
        !white_space(s[j]),
    ensures
        trim(s).len() > 0,
{
    lemma_trim_start_not_empty(s, j);
    lemma_trim_start_first(s);
    lemma_trim_end_not_empty(trim_start(s));
}

/// Joining two runs of parts is joining each and putting the separator
/// between them.
pub proof fn lemma_join_append(a: Seq<Seq<char>>, b: Seq<Seq<char>>, sep: Seq<char>)
    requires
        a.len() > 0,
        b.len() > 0,
    ensures
        join(a + b, sep) == join(a, sep) + sep + join(b, sep),
    decreases b.len(),
{
    if b.len() == 1 {
        assert((a + b).drop_last() =~= a);
    } else {
        lemma_join_append(a, b.drop_last(), sep);
        assert((a + b).drop_last() =~= a + b.drop_last());
        assert(join(a, sep) + sep + join(b.drop_last(), sep) + sep + b.last() =~= join(a, sep) + sep + (join(
            b.drop_last(),
            sep,
        ) + sep + b.last()));
    }
}

/// The parts from `i` to `j`, joined, are a part of all the parts joined.
pub proof fn lemma_join_subrange_contained(ps: Seq<Seq<char>>, sep: Seq<char>, i: int, j: int)
    requires
        0 <= i <= j <= ps.len(),
    ensures
        contains(join(ps, sep), join(ps.subrange(i, j), sep)),
{
    let mid = ps.subrange(i, j);
    let whole = join(ps, sep);
    if i == j {
        assert(join(mid, sep) =~= Seq::<char>::empty());
        assert(whole.subrange(0, 0) =~= join(mid, sep));
        assert(occurs_at(whole, join(mid, sep), 0));
    } else {
        let front = ps.take(i);
        let back = ps.skip(j);
        if i > 0 {
            assert(ps.take(j) =~= front + mid);
            lemma_join_append(front, mid, sep);
        } else {
            assert(ps.take(j) =~= mid);
        }
        if j < ps.len() {
            assert(ps =~= ps.take(j) + back);
            lemma_join_append(ps.take(j), back, sep);
        } else {
            assert(ps =~= ps.take(j));
        }
        let t = join(ps.take(j), sep);
        let start: int = if i > 0 { (join(front, sep).len() + sep.len()) as int } else { 0 };
        assert(t.subrange(start, start + join(mid, sep).len()) =~= join(mid, sep));
        assert(occurs_at(t, join(mid, sep), start));
        if j < ps.len() {
            assert(whole.subrange(0, t.len() as int) =~= t);
            lemma_subrange_contained(whole, 0, t.len() as int);
            lemma_contains_trans(whole, t, join(mid, sep));
        } else {
            assert(whole == t);
        }
    }
}

} // verus!
