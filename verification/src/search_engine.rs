//! Turning what the user typed into a URL: a URL is kept, a bare domain gets
//! `https://`, anything else becomes a search with the chosen engine.
use vstd::prelude::*;
use vstd::utf8::*;
use crate::config::{search_engine_table, search_engines};
use crate::text::{
    alphanumeric, char_is_alphanumeric, chars_of, extend_chars, has_char, push_char, replace_all,
    replace_chars, starts_with, starts_with_chars, string_of, trim, trim_str, chars_equal,
};

verus! {

/// The trimmed input starts with `http://` or `https://`.
pub open spec fn looks_like_url(t: Seq<char>) -> bool {
    starts_with(t, "http://"@) || starts_with(t, "https://"@)
}

/// The trimmed input has a dot and no space, so it is taken for a domain name.
pub open spec fn looks_like_domain(t: Seq<char>) -> bool {
    t.contains('.') && !t.contains(' ')
}

/// Whether the input is a search query rather than an address.
pub open spec fn search_query(input: Seq<char>) -> bool {
    let t = trim(input);
    t.len() > 0 && !looks_like_url(t) && !looks_like_domain(t)
}

/// The upper-case hexadecimal digit for a value below 16.
pub open spec fn hex_digit(n: int) -> char {
    if n < 10 {
        (48 + n) as char
    } else {
        (55 + n) as char
    }
}

/// `%XX` for each byte, upper-case hexadecimal.
pub open spec fn percent_bytes(bytes: Seq<u8>) -> Seq<char>
    decreases bytes.len(),
{
    if bytes.len() == 0 {
        seq![]
    } else {
        seq!['%', hex_digit(bytes[0] as int / 16), hex_digit(bytes[0] as int % 16)] + percent_bytes(
            bytes.drop_first(),
        )
    }
}

/// A character percent-encoded over its UTF-8 bytes.
pub open spec fn percent_encoded(c: char) -> Seq<char> {
    percent_bytes(encode_scalar(c as u32))
}

/// How one character of a search query is written in the URL: a space
/// becomes `+`, letters, digits, `-` and `_` stay, the rest is percent-encoded.
pub open spec fn query_char(c: char) -> Seq<char> {
    if c == ' ' {
        seq!['+']
    } else if alphanumeric(c) || c == '-' || c == '_' {
        seq![c]
    } else {
        percent_encoded(c)
    }
}

/// A search query encoded for a URL, character by character.
pub open spec fn encode_query(t: Seq<char>) -> Seq<char>
    decreases t.len(),
{
    if t.len() == 0 {
        seq![]
    } else {
        encode_query(t.drop_last()) + query_char(t.last())
    }
}

/// The URL that the input leads to.
pub open spec fn built_url(input: Seq<char>, engine: Seq<char>) -> Seq<char> {
    let t = trim(input);
    if looks_like_url(t) {
        t
    } else if looks_like_domain(t) {
        "https://"@ + t
    } else {
        replace_all(engine, "{}"@, encode_query(t))
    }
}

/// Whether the input is a search query: it is not empty once trimmed, does not
/// start with `http://` or `https://`, and is not a dotted word without spaces.
pub fn is_search_query(input: &str) -> (b: bool)
    ensures
        b == search_query(input@),
{
    let t = trim_str(input);
    if t.len() == 0 {
        return false;
    }
    if is_url_like(t.as_slice()) {
        return false;
    }
    if has_char(t.as_slice(), '.') && !has_char(t.as_slice(), ' ') {
        return false;
    }
    true
}

/// Whether the characters start with `http://` or `https://`.
fn is_url_like(t: &[char]) -> (b: bool)
    ensures
        b == looks_like_url(t@),
{
    let http = chars_of("http://");
    let https = chars_of("https://");
    starts_with_chars(t, http.as_slice()) || starts_with_chars(t, https.as_slice())
}

/// The upper-case hexadecimal digit for a value below 16.
fn hex_digit_exec(n: u8) -> (c: char)
    requires
        n < 16,
    ensures
        c == hex_digit(n as int),
{
    if n < 10 {
        (48u8 + n) as char
    } else {
        (55u8 + n) as char
    }
}

/// The UTF-8 bytes of a character.
fn utf8_bytes(c: char) -> (b: Vec<u8>)
    ensures
        b@ == encode_scalar(c as u32),
{
    let v = c as u32;
    let mut b: Vec<u8> = Vec::new();
    if v <= 0x7F {
        b.push((v & 0x7F) as u8);
    } else if v <= 0x7FF {
        b.push(0xC0 | ((v >> 6) & 0x1F) as u8);
        b.push(0x80 | (v & 0x3F) as u8);
    } else if v <= 0xFFFF {
        b.push(0xE0 | ((v >> 12) & 0x0F) as u8);
        b.push(0x80 | ((v >> 6) & 0x3F) as u8);
        b.push(0x80 | (v & 0x3F) as u8);
    } else {
        b.push(0xF0 | ((v >> 18) & 0x7) as u8);
        b.push(0x80 | ((v >> 12) & 0x3F) as u8);
        b.push(0x80 | ((v >> 6) & 0x3F) as u8);
        b.push(0x80 | (v & 0x3F) as u8);
    }
    assert(b@ =~= encode_scalar(c as u32));
    b
}

/// A character percent-encoded over its UTF-8 bytes, `%XX` per byte.
pub fn urlencoding(c: char) -> (s: String)
    ensures
        s@ == percent_encoded(c),
{
    let bytes = utf8_bytes(c);
    let mut out = String::new();
    let mut i: usize = 0;
    assert(bytes@.skip(0) =~= bytes@);
    assert(Seq::<char>::empty() + percent_bytes(bytes@) =~= percent_bytes(bytes@));
    while i < bytes.len()
        invariant
            i <= bytes@.len(),
            percent_bytes(bytes@) == out@ + percent_bytes(bytes@.skip(i as int)),
        decreases bytes.len() - i,
    {
        let byte = bytes[i];
        let ghost before = out@;
        push_char(&mut out, '%');
        push_char(&mut out, hex_digit_exec(byte / 16));
        push_char(&mut out, hex_digit_exec(byte % 16));
        assert(bytes@.skip(i as int).drop_first() =~= bytes@.skip(i + 1));
        assert(out@ + percent_bytes(bytes@.skip(i + 1)) =~= before + percent_bytes(
            bytes@.skip(i as int),
        ));
        i += 1;
    }
    assert(percent_bytes(bytes@.skip(i as int)) =~= Seq::<char>::empty());
    assert(out@ + Seq::<char>::empty() =~= out@);
    out
}

/// Appends the URL form of one query character.
fn push_query_char(out: &mut Vec<char>, c: char)
    ensures
        final(out)@ == old(out)@ + query_char(c),
{
    if c == ' ' {
        out.push('+');
        assert(final(out)@ =~= old(out)@ + seq!['+']);
    } else if char_is_alphanumeric(c) || c == '-' || c == '_' {
        out.push(c);
        assert(final(out)@ =~= old(out)@ + seq![c]);
    } else {
        let enc = urlencoding(c);
        let ec = chars_of(enc.as_str());
        extend_chars(out, ec.as_slice());
    }
}

/// The URL that the input leads to: a URL is kept as typed (trimmed), a
/// dotted word without spaces gets `https://` in front, anything else is put
/// into the search engine's URL in place of each `{}`, with spaces as `+`
/// and every character other than a letter, digit, `-` or `_`
/// percent-encoded.
pub fn build_url(input: &str, search_engine_url: &str) -> (url: String)
    ensures
        url@ == built_url(input@, search_engine_url@),
{
    let t = trim_str(input);
    if is_url_like(t.as_slice()) {
        return string_of(t.as_slice());
    }
    if has_char(t.as_slice(), '.') && !has_char(t.as_slice(), ' ') {
        let mut out = chars_of("https://");
        extend_chars(&mut out, t.as_slice());
        return string_of(out.as_slice());
    }
    let mut encoded: Vec<char> = Vec::new();
    let mut i: usize = 0;
    while i < t.len()
        invariant
            i <= t@.len(),
            encoded@ == encode_query(t@.take(i as int)),
        decreases t.len() - i,
    {
        assert(t@.take(i + 1 as int).drop_last() =~= t@.take(i as int));
        push_query_char(&mut encoded, t[i]);
        i += 1;
    }
    assert(t@.take(t@.len() as int) =~= t@);
    let engine = chars_of(search_engine_url);
    let pat = chars_of("{}");
    proof {
        reveal_strlit("{}");
    }
    let r = replace_chars(engine.as_slice(), pat.as_slice(), encoded.as_slice());
    string_of(r.as_slice())
}

/// The names of the built-in search engines, in order.
pub fn engine_names() -> (names: Vec<&'static str>)
    ensures
        names@.len() == search_engine_table().len(),
        forall|i: int| 0 <= i < names@.len() ==> #[trigger] names@[i]@ == search_engine_table()[i].0,
{
    let engines = search_engines();
    let mut names: Vec<&'static str> = Vec::new();
    let mut i: usize = 0;
    while i < engines.len()
        invariant
            i <= engines@.len(),
            crate::config::pair_views(engines@) == search_engine_table(),
            names@.len() == i,
            forall|k: int| 0 <= k < i ==> #[trigger] names@[k]@ == search_engine_table()[k].0,
        decreases engines.len() - i,
    {
        assert(crate::config::pair_views(engines@)[i as int] == (engines@[i as int].0@, engines@[i as int].1@));
        names.push(engines[i].0);
        i += 1;
    }
    names
}

/// The URL of the first built-in engine with the given name, if any.
pub open spec fn engine_url_of(name: Seq<char>, table: Seq<(Seq<char>, Seq<char>)>) -> Option<Seq<char>>
    decreases table.len(),
{
    if table.len() == 0 {
        None
    } else if table[0].0 == name {
        Some(table[0].1)
    } else {
        engine_url_of(name, table.drop_first())
    }
}

/// The search URL of the built-in engine with the given name.
pub fn engine_url(name: &str) -> (url: Option<&'static str>)
    ensures
        match url {
            Some(u) => engine_url_of(name@, search_engine_table()) == Some(u@),
            None => engine_url_of(name@, search_engine_table()) is None,
        },
{
    let engines = search_engines();
    let wanted = chars_of(name);
    let mut i: usize = 0;
    assert(search_engine_table().skip(0) =~= search_engine_table());
    while i < engines.len()
        invariant
            i <= engines@.len(),
            wanted@ == name@,
            crate::config::pair_views(engines@) == search_engine_table(),
            engine_url_of(name@, search_engine_table()) == engine_url_of(
                name@,
                search_engine_table().skip(i as int),
            ),
        decreases engines.len() - i,
    {
        let ghost rest = search_engine_table().skip(i as int);
        assert(crate::config::pair_views(engines@)[i as int] == (engines@[i as int].0@, engines@[i as int].1@));
        let n = chars_of(engines[i].0);
        if chars_equal(n.as_slice(), wanted.as_slice()) {
            return Some(engines[i].1);
        }
        assert(rest.drop_first() =~= search_engine_table().skip(i + 1));
        i += 1;
    }
    None
}

} // verus!

verus! {

/// How many times a character occurs in a text.
pub open spec fn char_count(s: Seq<char>, c: char) -> nat
    decreases s.len(),
{
    if s.len() == 0 {
        0
    } else {
        char_count(s.drop_last(), c) + if s.last() == c {
            1nat
        } else {
            0nat
        }
    }
}

/// `{}` occurs exactly once in a text: it occurs, and each of its two
/// characters occurs only once.
pub open spec fn one_placeholder(u: Seq<char>) -> bool {
    &&& crate::text::contains(u, "{}"@)
    &&& char_count(u, '{') == 1
    &&& char_count(u, '}') == 1
}

/// The duckduckgo search URL holds a single `{}`, at its end.
proof fn lemma_placeholder_duckduckgo()
    ensures
        one_placeholder("https://duckduckgo.com/?q={}"@),
{
    let u = "https://duckduckgo.com/?q={}"@;
    reveal_strlit("{}");
    reveal_strlit("https://duckduckgo.com/?q={}");
    assert(u.subrange(u.len() - 2, u.len() as int) =~= "{}"@);
    assert(crate::text::occurs_at(u, "{}"@, u.len() - 2));
    reveal_with_fuel(char_count, 45);
}

/// The google search URL holds a single `{}`, at its end.
proof fn lemma_placeholder_google()
    ensures
        one_placeholder("https://www.google.com/search?q={}"@),
{
    let u = "https://www.google.com/search?q={}"@;
    reveal_strlit("{}");
    reveal_strlit("https://www.google.com/search?q={}");
    assert(u.subrange(u.len() - 2, u.len() as int) =~= "{}"@);
    assert(crate::text::occurs_at(u, "{}"@, u.len() - 2));
    reveal_with_fuel(char_count, 45);
}

/// The bing search URL holds a single `{}`, at its end.
proof fn lemma_placeholder_bing()
    ensures
        one_placeholder("https://www.bing.com/search?q={}"@),
{
    let u = "https://www.bing.com/search?q={}"@;
    reveal_strlit("{}");
    reveal_strlit("https://www.bing.com/search?q={}");
    assert(u.subrange(u.len() - 2, u.len() as int) =~= "{}"@);
    assert(crate::text::occurs_at(u, "{}"@, u.len() - 2));
    reveal_with_fuel(char_count, 45);
}

/// The startpage search URL holds a single `{}`, at its end.
proof fn lemma_placeholder_startpage()
    ensures
        one_placeholder("https://www.startpage.com/do/search?q={}"@),
{
    let u = "https://www.startpage.com/do/search?q={}"@;
    reveal_strlit("{}");
    reveal_strlit("https://www.startpage.com/do/search?q={}");
    assert(u.subrange(u.len() - 2, u.len() as int) =~= "{}"@);
    assert(crate::text::occurs_at(u, "{}"@, u.len() - 2));
    reveal_with_fuel(char_count, 45);
}

/// The brave search URL holds a single `{}`, at its end.
proof fn lemma_placeholder_brave()
    ensures
        one_placeholder("https://search.brave.com/search?q={}"@),
{
    let u = "https://search.brave.com/search?q={}"@;
    reveal_strlit("{}");
    reveal_strlit("https://search.brave.com/search?q={}");
    assert(u.subrange(u.len() - 2, u.len() as int) =~= "{}"@);
    assert(crate::text::occurs_at(u, "{}"@, u.len() - 2));
    reveal_with_fuel(char_count, 45);
}

/// The searxng search URL holds a single `{}`, at its end.
proof fn lemma_placeholder_searxng()
    ensures
        one_placeholder("https://searx.be/search?q={}"@),
{
    let u = "https://searx.be/search?q={}"@;
    reveal_strlit("{}");
    reveal_strlit("https://searx.be/search?q={}");
    assert(u.subrange(u.len() - 2, u.len() as int) =~= "{}"@);
    assert(crate::text::occurs_at(u, "{}"@, u.len() - 2));
    reveal_with_fuel(char_count, 45);
}

/// Each built-in engine's name looks up its own URL, and that URL has one
/// `{}` where the query goes.
pub proof fn law_engine_names_lead_to_their_urls(i: int)
    requires
        0 <= i < search_engine_table().len(),
    ensures
        engine_url_of(search_engine_table()[i].0, search_engine_table()) == Some(search_engine_table()[i].1),
        one_placeholder(search_engine_table()[i].1),
{
    reveal_strlit("DuckDuckGo");
    reveal_strlit("Google");
    reveal_strlit("Bing");
    reveal_strlit("Startpage");
    reveal_strlit("Brave");
    reveal_strlit("SearXNG");
    let t = search_engine_table();
    let t1 = t.drop_first();
    let t2 = t1.drop_first();
    let t3 = t2.drop_first();
    let t4 = t3.drop_first();
    let t5 = t4.drop_first();
    assert(t1[0] == t[1] && t2[0] == t[2] && t3[0] == t[3] && t4[0] == t[4] && t5[0] == t[5]);
    assert(t.len() == 6 && t1.len() == 5 && t2.len() == 4 && t3.len() == 3 && t4.len() == 2 && t5.len() == 1);
    assert(t[0].0.len() == 10 && t[1].0.len() == 6 && t[2].0.len() == 4 && t[3].0.len() == 9 && t[4].0.len() == 5
        && t[5].0.len() == 7);
    if i == 0 {
        assert(engine_url_of(t[0].0, t) == Some(t[0].1));
    } else if i == 1 {
        assert(engine_url_of(t[1].0, t) == Some(t[1].1)) by {
            reveal_with_fuel(engine_url_of, 2);
        }
    } else if i == 2 {
        assert(engine_url_of(t[2].0, t) == Some(t[2].1)) by {
            reveal_with_fuel(engine_url_of, 3);
        }
    } else if i == 3 {
        assert(engine_url_of(t[3].0, t) == Some(t[3].1)) by {
            reveal_with_fuel(engine_url_of, 4);
        }
    } else if i == 4 {
        assert(engine_url_of(t[4].0, t) == Some(t[4].1)) by {
            reveal_with_fuel(engine_url_of, 5);
        }
    } else {
        assert(engine_url_of(t[5].0, t) == Some(t[5].1)) by {
            reveal_with_fuel(engine_url_of, 6);
        }
    }
    lemma_placeholder_duckduckgo();
    lemma_placeholder_google();
    lemma_placeholder_bing();
    lemma_placeholder_startpage();
    lemma_placeholder_brave();
    lemma_placeholder_searxng();
}

/// Typed addresses are kept: an input whose trimmed form starts with
/// `http://` or `https://` comes back as that trimmed form, unchanged; any
/// other dotted word without spaces gets `https://` in front of it.
pub proof fn law_typed_addresses_are_kept(input: Seq<char>, engine: Seq<char>)
    ensures
        starts_with(trim(input), "http://"@) ==> built_url(input, engine) == trim(input),
        starts_with(trim(input), "https://"@) ==> built_url(input, engine) == trim(input),
        !starts_with(trim(input), "http://"@) && !starts_with(trim(input), "https://"@) && trim(input).contains('.')
            && !trim(input).contains(' ') ==> built_url(input, engine) == "https://"@ + trim(input),
{
}

} // verus!
