//! Reader mode: the article of a page as plain text, with its title, author
//! and date.
//!
//! The article comes from Mozilla's Readability algorithm (the `readability`
//! crate) when it finds enough text; otherwise from the text blocks of the
//! page, with the boilerplate around the longest run of text cut away; and as
//! a last resort from the whole page turned into text by `html2text`.
use vstd::prelude::*;
use vstd::utf8::encode_utf8;
use crate::dom::{
    node_attr, node_view, parse_document, ref_views, sel_attr_eq, sel_tag, sel_views, select,
    select_nodes, text_of, text_of_node, tree_attr, DomNode, SelV, SimpleSel, Tree,
};
use crate::renderer::{find_content, first_content, og_title_sel, or_default, tag_sel};
use crate::text::{
    char_views, chars_of, contains, contains_chars, extend_chars, join, join_with, lowercase,
    str_to_lowercase, string_of, trim, trim_chars,
};

verus! {

/// An article extracted from a page.
pub struct Article {
    pub title: String,
    pub author: String,
    pub date: String,
    pub text: String,
    pub url: String,
}

/// An article as values: title, author, date, text, address.
pub type ArticleV = (Seq<char>, Seq<char>, Seq<char>, Seq<char>, Seq<char>);

/// The values of an article.
pub open spec fn article_view(a: Article) -> ArticleV {
    (a.title@, a.author@, a.date@, a.text@, a.url@)
}

// ── Pages that block readers ───────────────────────────────────────────────

/// Markers of pages that stand in for the real one (challenges, CAPTCHAs,
/// anti-bot checks), each with the reason it is reported under. They are
/// written in lower case, as they are looked for in the page's lower-case
/// form, so a marker matches whatever the case of the page.
pub open spec fn blocked_signals() -> Seq<(Seq<char>, Seq<char>)> {
    seq![
        ("just a moment..."@, "Cloudflare challenge"@),
        ("checking your browser"@, "anti-bot check"@),
        ("please verify you are a human"@, "CAPTCHA challenge"@),
        ("api-engagement"@, "API engagement platform"@),
        ("cdn-cgi/challenge-platform"@, "Cloudflare challenge"@),
        ("_cf_chl_opt"@, "Cloudflare challenge"@),
        ("datadome"@, "DataDome anti-bot"@),
        ("geo.captcha-delivery.com"@, "CAPTCHA challenge"@),
    ]
}

/// The reason of the first marker that occurs in the text.
pub open spec fn first_signal(text: Seq<char>, signals: Seq<(Seq<char>, Seq<char>)>) -> Option<Seq<char>>
    decreases signals.len(),
{
    if signals.len() == 0 {
        None
    } else if contains(text, signals[0].0) {
        Some(signals[0].1)
    } else {
        first_signal(text, signals.drop_first())
    }
}

/// Why a page is a stand-in, if it is one: the markers are looked for in the
/// page's lower-case form.
pub open spec fn blocked_reason(html: Seq<char>) -> Option<Seq<char>> {
    first_signal(lowercase(html), blocked_signals())
}

/// The markers and their reasons.
fn signal_list() -> (v: Vec<(&'static str, &'static str)>)
    ensures
        crate::config::pair_views(v@) == blocked_signals(),
{
    let mut v: Vec<(&'static str, &'static str)> = Vec::new();
    v.push(("just a moment...", "Cloudflare challenge"));
    v.push(("checking your browser", "anti-bot check"));
    v.push(("please verify you are a human", "CAPTCHA challenge"));
    v.push(("api-engagement", "API engagement platform"));
    v.push(("cdn-cgi/challenge-platform", "Cloudflare challenge"));
    v.push(("_cf_chl_opt", "Cloudflare challenge"));
    v.push(("datadome", "DataDome anti-bot"));
    v.push(("geo.captcha-delivery.com", "CAPTCHA challenge"));
    assert(crate::config::pair_views(v@) =~= blocked_signals());
    v
}

/// Why a page is a stand-in for the real one, if it is one.
pub fn detect_blocked_page(html: &str) -> (r: Option<&'static str>)
    ensures
        match r {
            Some(reason) => blocked_reason(html@) == Some(reason@),
            None => blocked_reason(html@) is None,
        },
{
    let lower = str_to_lowercase(html);
    let lc = chars_of(lower.as_str());
    let signals = signal_list();
    let ghost sv = crate::config::pair_views(signals@);
    let mut i: usize = 0;
    assert(sv.skip(0) =~= sv);
    while i < signals.len()
        invariant
            i <= signals@.len() == sv.len(),
            sv == crate::config::pair_views(signals@),
            sv == blocked_signals(),
            lc@ == lowercase(html@),
            first_signal(lc@, sv) == first_signal(lc@, sv.skip(i as int)),
        decreases signals.len() - i,
    {
        let ghost rest = sv.skip(i as int);
        assert(rest[0] == sv[i as int]);
        assert(rest.drop_first() =~= sv.skip(i + 1));
        let (pattern, reason) = signals[i];
        let p = chars_of(pattern);
        if contains_chars(lc.as_slice(), p.as_slice()) {
            return Some(reason);
        }
        i += 1;
    }
    None
}

// ── Boilerplate ────────────────────────────────────────────────────────────

/// The pieces read so far and the piece being read, after scanning `s` for
/// line feeds.
pub open spec fn split_scan(s: Seq<char>) -> (Seq<Seq<char>>, Seq<char>)
    decreases s.len(),
{
    if s.len() == 0 {
        (seq![], seq![])
    } else {
        let (done, cur) = split_scan(s.drop_last());
        if s.last() == '\n' {
            (done.push(cur), seq![])
        } else {
            (done, cur.push(s.last()))
        }
    }
}

/// The pieces of a text between line feeds (`str::split('\n')`); there is
/// always one more piece than there are line feeds.
pub open spec fn split_lines(s: Seq<char>) -> Seq<Seq<char>> {
    let (done, cur) = split_scan(s);
    done.push(cur)
}

/// Whether a block holds only white space.
pub open spec fn blank(b: Seq<char>) -> bool {
    trim(b).len() == 0
}

/// The weight of a block: the UTF-8 length of its trimmed text.
pub open spec fn weight(b: Seq<char>) -> nat {
    encode_utf8(trim(b)).len()
}

/// The total weight of the blocks.
pub open spec fn total_weight(bs: Seq<Seq<char>>) -> nat
    decreases bs.len(),
{
    if bs.len() == 0 {
        0
    } else {
        total_weight(bs.drop_last()) + weight(bs.last())
    }
}

/// The total length of the blocks, in characters.
pub open spec fn total_len(bs: Seq<Seq<char>>) -> nat
    decreases bs.len(),
{
    if bs.len() == 0 {
        0
    } else {
        total_len(bs.drop_last()) + bs.last().len()
    }
}

/// Whether the run of blocks from `i` to `j` (both included) is looked at:
/// a run may start with blank blocks, but past its first four blocks it
/// stops before a blank one.
pub open spec fn reach(bs: Seq<Seq<char>>, i: int, j: int) -> bool {
    &&& 0 <= i <= j < bs.len()
    &&& forall|k: int| i + 3 < k <= j ==> !blank(#[trigger] bs[k])
}

/// The weight of the run of blocks from `i` to `j`, both included.
pub open spec fn win(bs: Seq<Seq<char>>, i: int, j: int) -> nat {
    total_weight(bs.subrange(i, j + 1))
}

/// `len` is the greatest weight of a run that is looked at (0 when every
/// run weighs nothing), and `start` the first block of the first run of that
/// weight (0 when there is none).
pub open spec fn best_window(bs: Seq<Seq<char>>, len: nat, start: nat) -> bool {
    &&& forall|i: int, j: int| #[trigger] reach(bs, i, j) ==> win(bs, i, j) <= len
    &&& len > 0 ==> exists|j: int| #[trigger] reach(bs, start as int, j) && win(bs, start as int, j) == len
    &&& len > 0 ==> forall|i: int, j: int| #[trigger] reach(bs, i, j) && i < start ==> win(bs, i, j) < len
    &&& len == 0 ==> start == 0
}

/// The heaviest run: its weight and its first block; `(0, 0)` where there
/// is none (`heaviest_run` finds one for any blocks).
pub open spec fn best_of(bs: Seq<Seq<char>>) -> (nat, nat) {
    if exists|p: (nat, nat)| best_window(bs, p.0, p.1) {
        choose|p: (nat, nat)| best_window(bs, p.0, p.1)
    } else {
        (0, 0)
    }
}

/// The blocks up to the first blank one.
pub open spec fn nonblank_prefix(bs: Seq<Seq<char>>) -> Seq<Seq<char>>
    decreases bs.len(),
{
    if bs.len() == 0 {
        seq![]
    } else if blank(bs[0]) {
        seq![]
    } else {
        seq![bs[0]] + nonblank_prefix(bs.drop_first())
    }
}

/// A text with the boilerplate around its main part cut away: the text is
/// split into blocks at line feeds, the heaviest run of blocks is found, and
/// the blocks from its start up to the next blank block are kept, trimmed.
/// Texts of fewer than three blocks, and texts whose heaviest run weighs less
/// than `min_len`, are kept as they are.
pub open spec fn boilerplate_trimmed(text: Seq<char>, min_len: nat) -> Seq<char> {
    let bs = split_lines(text);
    if bs.len() < 3 {
        text
    } else {
        let (len, start) = best_of(bs);
        if len < min_len {
            text
        } else {
            trim(join(nonblank_prefix(bs.skip(start as int)), seq!['\n']))
        }
    }
}

/// Splitting keeps every character but the line feeds.
proof fn lemma_split_scan_len(s: Seq<char>)
    ensures
        total_len(split_scan(s).0) + split_scan(s).0.len() + split_scan(s).1.len() == s.len(),
    decreases s.len(),
{
    if s.len() > 0 {
        lemma_split_scan_len(s.drop_last());
        let (done, cur) = split_scan(s.drop_last());
        if s.last() == '\n' {
            assert(done.push(cur).drop_last() =~= done);
        }
    }
}

/// The blocks of a text hold no more characters than the text.
proof fn lemma_split_total_len(s: Seq<char>)
    ensures
        total_len(split_lines(s)) <= s.len(),
        split_lines(s).len() >= 1,
{
    lemma_split_scan_len(s);
    let (done, cur) = split_scan(s);
    assert(done.push(cur).drop_last() =~= done);
}

/// The length of blocks put one after another is the sum of their lengths.
proof fn lemma_total_len_add(a: Seq<Seq<char>>, b: Seq<Seq<char>>)
    ensures
        total_len(a + b) == total_len(a) + total_len(b),
    decreases b.len(),
{
    if b.len() > 0 {
        lemma_total_len_add(a, b.drop_last());
        assert((a + b).drop_last() =~= a + b.drop_last());
    } else {
        assert(a + b =~= a);
    }
}

/// A run of blocks holds no more characters than all the blocks.
proof fn lemma_subrange_len(bs: Seq<Seq<char>>, i: int, j: int)
    requires
        0 <= i <= j <= bs.len(),
    ensures
        total_len(bs.subrange(i, j)) <= total_len(bs),
{
    let a = bs.subrange(0, i);
    let b = bs.subrange(i, j);
    let c = bs.subrange(j, bs.len() as int);
    assert(bs =~= a + b + c);
    lemma_total_len_add(a, b);
    lemma_total_len_add(a + b, c);
}

/// A block weighs at most four bytes per character.
proof fn lemma_total_weight_bound(bs: Seq<Seq<char>>)
    ensures
        total_weight(bs) <= 4 * total_len(bs),
    decreases bs.len(),
{
    if bs.len() > 0 {
        lemma_total_weight_bound(bs.drop_last());
        crate::text::lemma_utf8_len_bound(trim(bs.last()));
        crate::text::lemma_trim_len(bs.last());
    }
}

/// There is one heaviest run.
proof fn lemma_best_unique(bs: Seq<Seq<char>>, l1: nat, s1: nat, l2: nat, s2: nat)
    requires
        best_window(bs, l1, s1),
        best_window(bs, l2, s2),
    ensures
        l1 == l2,
        s1 == s2,
{
    if l1 > 0 {
        let j = choose|j: int| #[trigger] reach(bs, s1 as int, j) && win(bs, s1 as int, j) == l1;
        assert(reach(bs, s1 as int, j));
    }
    if l2 > 0 {
        let j = choose|j: int| #[trigger] reach(bs, s2 as int, j) && win(bs, s2 as int, j) == l2;
        assert(reach(bs, s2 as int, j));
    }
    assert(l1 == l2);
    if l1 > 0 {
        let j1 = choose|j: int| #[trigger] reach(bs, s1 as int, j) && win(bs, s1 as int, j) == l1;
        let j2 = choose|j: int| #[trigger] reach(bs, s2 as int, j) && win(bs, s2 as int, j) == l2;
        assert(reach(bs, s1 as int, j1));
        assert(reach(bs, s2 as int, j2));
    }
}

/// The blocks of a text.
fn split_text(s: &[char]) -> (r: Vec<Vec<char>>)
    ensures
        char_views(r@) == split_lines(s@),
{
    let mut done: Vec<Vec<char>> = Vec::new();
    let mut cur: Vec<char> = Vec::new();
    let mut i: usize = 0;
    while i < s.len()
        invariant
            i <= s@.len(),
            char_views(done@) == split_scan(s@.take(i as int)).0,
            cur@ == split_scan(s@.take(i as int)).1,
        decreases s.len() - i,
    {
        assert(s@.take(i + 1 as int).drop_last() =~= s@.take(i as int));
        if s[i] == '\n' {
            let ghost before = char_views(done@);
            done.push(cur);
            assert(char_views(done@) =~= before.push(done@.last()@));
            cur = Vec::new();
        } else {
            cur.push(s[i]);
        }
        i += 1;
    }
    assert(s@.take(i as int) =~= s@);
    let ghost before = char_views(done@);
    done.push(cur);
    assert(char_views(done@) =~= before.push(done@.last()@));
    done
}

/// The best run among those that start before block `i`, or at block `i`
/// and end before block `j`.
pub open spec fn best_so_far(bs: Seq<Seq<char>>, i: int, j: int, len: nat, start: nat) -> bool {
    &&& forall|a: int, b: int| #[trigger] reach(bs, a, b) && (a < i || (a == i && b < j)) ==> win(bs, a, b) <= len
    &&& len > 0 ==> exists|b: int| #[trigger] reach(bs, start as int, b) && win(bs, start as int, b) == len
        && (start < i || (start == i && b < j))
    &&& len > 0 ==> forall|a: int, b: int| #[trigger] reach(bs, a, b) && a < start ==> win(bs, a, b) < len
    &&& len == 0 ==> start == 0
    &&& start <= i
}

/// The weights and blank flags of the blocks.
fn block_weights(blocks: &Vec<Vec<char>>) -> (r: (Vec<u128>, Vec<bool>))
    ensures
        r.0@.len() == blocks@.len(),
        r.1@.len() == blocks@.len(),
        forall|k: int| 0 <= k < blocks@.len() ==> r.0@[k] == weight(#[trigger] char_views(blocks@)[k]),
        forall|k: int| 0 <= k < blocks@.len() ==> r.1@[k] == blank(#[trigger] char_views(blocks@)[k]),
{
    let ghost bv = char_views(blocks@);
    let mut ws: Vec<u128> = Vec::new();
    let mut bl: Vec<bool> = Vec::new();
    let mut k: usize = 0;
    while k < blocks.len()
        invariant
            k <= blocks@.len(),
            bv == char_views(blocks@),
            ws@.len() == k,
            bl@.len() == k,
            forall|m: int| 0 <= m < k ==> ws@[m] == weight(#[trigger] bv[m]),
            forall|m: int| 0 <= m < k ==> bl@[m] == blank(#[trigger] bv[m]),
        decreases blocks.len() - k,
    {
        let t = trim_chars(blocks[k].as_slice());
        assert(t@ == trim(bv[k as int]));
        ws.push(crate::text::utf8_len(t.as_slice()));
        bl.push(t.len() == 0);
        k += 1;
    }
    (ws, bl)
}

/// Finds the heaviest run of blocks: its weight and its first block.
fn heaviest_run(blocks: &Vec<Vec<char>>, total: usize) -> (r: (u128, usize))
    requires
        total_len(char_views(blocks@)) <= total,
    ensures
        best_window(char_views(blocks@), r.0 as nat, r.1 as nat),
{
    let ghost bv = char_views(blocks@);
    let (ws, bl) = block_weights(blocks);
    let n = blocks.len();
    let mut best_len: u128 = 0;
    let mut best_start: usize = 0;
    let mut i: usize = 0;
    while i < n
        invariant
            i <= n == bv.len() == ws@.len() == bl@.len(),
            bv == char_views(blocks@),
            total_len(bv) <= total,
            forall|k: int| 0 <= k < n ==> ws@[k] == weight(#[trigger] bv[k]),
            forall|k: int| 0 <= k < n ==> bl@[k] == blank(#[trigger] bv[k]),
            best_so_far(bv, i as int, 0, best_len as nat, best_start as nat),
        decreases n - i,
    {
        let mut acc: u128 = 0;
        let mut j: usize = i;
        assert(bv.subrange(i as int, i as int) =~= Seq::<Seq<char>>::empty());
        while j < n && !(bl[j] && j - i > 3)
            invariant
                i <= j <= n == bv.len() == ws@.len() == bl@.len(),
                i < n,
                total_len(bv) <= total,
                forall|k: int| 0 <= k < n ==> ws@[k] == weight(#[trigger] bv[k]),
                forall|k: int| 0 <= k < n ==> bl@[k] == blank(#[trigger] bv[k]),
                acc == total_weight(bv.subrange(i as int, j as int)),
                forall|k: int| i + 3 < k < j ==> !blank(#[trigger] bv[k]),
                best_so_far(bv, i as int, j as int, best_len as nat, best_start as nat),
            decreases n - j,
        {
            assert(bv.subrange(i as int, j + 1).drop_last() =~= bv.subrange(i as int, j as int));
            proof {
                lemma_total_weight_bound(bv.subrange(i as int, j + 1));
                lemma_subrange_len(bv, i as int, j + 1);
            }
            acc = acc + ws[j];
            assert(reach(bv, i as int, j as int));
            assert(acc == win(bv, i as int, j as int));
            if acc > best_len {
                best_len = acc;
                best_start = i;
            }
            j += 1;
        }
        assert forall|b: int| #[trigger] reach(bv, i as int, b) implies b < j by {
            if b >= j {
                assert(j < n);
                assert(i + 3 < j);
                assert(!blank(bv[j as int]));
            }
        }
        i += 1;
    }
    assert forall|a: int, b: int| #[trigger] reach(bv, a, b) implies a < n by {}
    (best_len, best_start)
}

/// The blocks from the start up to the first blank one.
fn nonblank_from(blocks: &Vec<Vec<char>>, start: usize) -> (r: Vec<Vec<char>>)
    requires
        start <= blocks@.len(),
    ensures
        char_views(r@) == nonblank_prefix(char_views(blocks@).skip(start as int)),
{
    let ghost bv = char_views(blocks@);
    let mut out: Vec<Vec<char>> = Vec::new();
    let mut k: usize = start;
    while k < blocks.len() && trim_chars(blocks[k].as_slice()).len() > 0
        invariant
            start <= k <= blocks@.len(),
            bv == char_views(blocks@),
            nonblank_prefix(bv.skip(start as int)) == char_views(out@) + nonblank_prefix(bv.skip(k as int)),
        decreases blocks.len() - k,
    {
        let ghost rest = bv.skip(k as int);
        assert(rest[0] == bv[k as int]);
        assert(rest.drop_first() =~= bv.skip(k + 1));
        let ghost before = char_views(out@);
        out.push(blocks[k].clone());
        assert(char_views(out@) =~= before.push(bv[k as int]));
        assert(before + nonblank_prefix(rest) =~= char_views(out@) + nonblank_prefix(bv.skip(k + 1)));
        k += 1;
    }
    proof {
        if k < blocks@.len() {
            assert(bv.skip(k as int)[0] == bv[k as int]);
        }
        assert(nonblank_prefix(bv.skip(k as int)) =~= Seq::<Seq<char>>::empty());
        assert(char_views(out@) + nonblank_prefix(bv.skip(k as int)) =~= char_views(out@));
    }
    out
}

/// Cuts the boilerplate around the main part of a text.
pub fn trim_boilerplate(text: &str, min_len: usize) -> (r: String)
    ensures
        r@ == boilerplate_trimmed(text@, min_len as nat),
{
    let chars = chars_of(text);
    let blocks = split_text(chars.as_slice());
    let ghost bv = char_views(blocks@);
    if blocks.len() < 3 {
        return string_of(chars.as_slice());
    }
    proof {
        lemma_split_total_len(chars@);
    }
    let (best_len, best_start) = heaviest_run(&blocks, chars.len());
    proof {
        let p = best_of(bv);
        assert(best_window(bv, best_len as nat, best_start as nat));
        lemma_best_unique(bv, p.0, p.1, best_len as nat, best_start as nat);
    }
    if best_len < min_len as u128 {
        return string_of(chars.as_slice());
    }
    assert(best_start <= blocks@.len()) by {
        if best_len > 0 {
            let j = choose|j: int| #[trigger] reach(bv, best_start as int, j) && win(bv, best_start as int, j) == best_len as nat;
            assert(reach(bv, best_start as int, j));
        }
    }
    let kept = nonblank_from(&blocks, best_start);
    let joined = join_with(&kept, '\n');
    let t = trim_chars(joined.as_slice());
    string_of(t.as_slice())
}

/// Joining the blocks of a text with line feeds gives the text back.
proof fn lemma_split_join(s: Seq<char>)
    ensures
        join(split_lines(s), seq!['\n']) == s,
    decreases s.len(),
{
    if s.len() > 0 {
        lemma_split_join(s.drop_last());
        let (done, cur) = split_scan(s.drop_last());
        let c = s.last();
        let before = done.push(cur);
        if c == '\n' {
            let after = before.push(seq![]);
            assert(after.drop_last() =~= before);
            assert(join(after, seq!['\n']) =~= s);
        } else {
            let after = done.push(cur.push(c));
            assert(after.drop_last() =~= done);
            assert(before.drop_last() =~= done);
            if done.len() == 0 {
                assert(join(after, seq!['\n']) =~= s);
            } else {
                assert(join(before, seq!['\n']) == join(done, seq!['\n']) + seq!['\n'] + cur);
                assert(join(after, seq!['\n']) =~= join(done, seq!['\n']) + seq!['\n'] + cur.push(c));
                assert(s =~= s.drop_last().push(c));
                assert(join(after, seq!['\n']) =~= s);
            }
        }
    } else {
        assert(split_lines(s) =~= seq![Seq::<char>::empty()]);
    }
}

/// The blocks kept are the first ones of the run.
proof fn lemma_nonblank_prefix_take(xs: Seq<Seq<char>>)
    ensures
        exists|k: int| 0 <= k <= xs.len() && nonblank_prefix(xs) == xs.take(k),
    decreases xs.len(),
{
    if xs.len() == 0 || blank(xs[0]) {
        assert(nonblank_prefix(xs) =~= xs.take(0));
    } else {
        lemma_nonblank_prefix_take(xs.drop_first());
        let k = choose|k: int| 0 <= k <= xs.drop_first().len() && nonblank_prefix(xs.drop_first()) == xs.drop_first().take(k);
        assert(seq![xs[0]] + xs.drop_first().take(k) =~= xs.take(k + 1));
    }
}

/// Cutting the boilerplate only takes text away: what is left is a piece of
/// the text, in one stretch.
pub proof fn law_boilerplate_is_part_of_text(text: Seq<char>, min_len: nat)
    ensures
        contains(text, boilerplate_trimmed(text, min_len)),
{
    let bs = split_lines(text);
    if bs.len() < 3 || best_of(bs).0 < min_len {
        crate::text::lemma_subrange_contained(text, 0, text.len() as int);
        assert(text.subrange(0, text.len() as int) =~= text);
    } else {
        let p = best_of(bs);
        let start = p.1;
        if exists|q: (nat, nat)| best_window(bs, q.0, q.1) {
            if p.0 > 0 {
                let j = choose|j: int| #[trigger] reach(bs, start as int, j) && win(bs, start as int, j) == p.0;
                assert(reach(bs, start as int, j));
            }
        }
        assert(start <= bs.len());
        lemma_split_join(text);
        let rest = bs.skip(start as int);
        lemma_nonblank_prefix_take(rest);
        let k = choose|k: int| 0 <= k <= rest.len() && nonblank_prefix(rest) == rest.take(k);
        let kept = nonblank_prefix(rest);
        let joined = join(kept, seq!['\n']);
        assert(kept =~= bs.subrange(start as int, start + k));
        crate::text::lemma_join_subrange_contained(bs, seq!['\n'], start as int, start + k);
        crate::text::lemma_trim_contained(joined);
        crate::text::lemma_contains_trans(text, joined, trim(joined));
    }
}

// ── Title and metadata ─────────────────────────────────────────────────────

/// The first non-blank title text, trimmed.
pub open spec fn first_text(ts: Seq<Tree>) -> Option<Seq<char>>
    decreases ts.len(),
{
    if ts.len() == 0 {
        None
    } else {
        let t = trim(text_of(ts[0]));
        if t.len() > 0 {
            Some(t)
        } else {
            first_text(ts.drop_first())
        }
    }
}

/// The title of an article: the page's Open Graph title, else its `title`
/// element, if either has text.
pub open spec fn article_title(doc: Tree) -> Option<Seq<char>> {
    match first_content(select(doc, og_title_sel())) {
        Some(t) => Some(t),
        None => first_text(select(doc, tag_sel("title"@))),
    }
}

/// The first element's `content`, when an element has one.
pub open spec fn first_attr_content(ms: Seq<Tree>) -> Option<Seq<char>>
    decreases ms.len(),
{
    if ms.len() == 0 {
        None
    } else {
        match tree_attr(ms[0], "content"@) {
            Some(v) => Some(v),
            None => first_attr_content(ms.drop_first()),
        }
    }
}

/// The `content` of the first element matched by the selector, or nothing.
pub open spec fn meta_content(doc: Tree, sel: Seq<SelV>) -> Seq<char> {
    or_default(first_attr_content(select(doc, sel)), seq![])
}

/// The author and date of a page, from its `meta` elements; empty when it
/// has none. The date is the publication time, else the `date` entry.
pub open spec fn page_metadata(doc: Tree) -> (Seq<char>, Seq<char>) {
    let author = meta_content(doc, seq![("meta"@, Some("name"@), Some("author"@))]);
    let published = meta_content(doc, seq![("meta"@, Some("property"@), Some("article:published_time"@))]);
    let date = if published.len() == 0 {
        meta_content(doc, seq![("meta"@, Some("name"@), Some("date"@))])
    } else {
        published
    };
    (author, date)
}

/// The first non-blank element text, trimmed.
fn find_text(ts: &Vec<&DomNode>) -> (r: Option<Vec<char>>)
    ensures
        match r {
            Some(t) => first_text(ref_views(ts@)) == Some(t@),
            None => first_text(ref_views(ts@)) is None,
        },
{
    let ghost all = ref_views(ts@);
    let mut i: usize = 0;
    assert(all.skip(0) =~= all);
    while i < ts.len()
        invariant
            i <= ts@.len() == all.len(),
            all == ref_views(ts@),
            first_text(all) == first_text(all.skip(i as int)),
        decreases ts.len() - i,
    {
        let ghost rest = all.skip(i as int);
        assert(rest[0] == node_view(*ts@[i as int]));
        assert(rest.drop_first() =~= all.skip(i + 1));
        let raw = text_of_node(ts[i]);
        let t = trim_chars(raw.as_slice());
        if t.len() > 0 {
            return Some(t);
        }
        i += 1;
    }
    None
}

/// The title of an article.
pub fn extract_title(doc: &DomNode) -> (r: Option<String>)
    ensures
        crate::config::opt_view(r) == article_title(node_view(*doc)),
{
    let mut og: Vec<SimpleSel> = Vec::new();
    og.push(sel_attr_eq("meta", "property", "og:title"));
    assert(sel_views(og@) =~= og_title_sel());
    let ms = select_nodes(doc, &og);
    if let Some(t) = find_content(&ms) {
        return Some(string_of(t.as_slice()));
    }
    let mut ts: Vec<SimpleSel> = Vec::new();
    ts.push(sel_tag("title"));
    assert(sel_views(ts@) =~= tag_sel("title"@));
    let els = select_nodes(doc, &ts);
    match find_text(&els) {
        Some(t) => Some(string_of(t.as_slice())),
        None => None,
    }
}

/// The `content` of the first element matched by the selector, or nothing.
fn find_meta_content(doc: &DomNode, sel: SimpleSel) -> (r: Vec<char>)
    ensures
        r@ == meta_content(node_view(*doc), sel_views(seq![sel])),
{
    let mut sels: Vec<SimpleSel> = Vec::new();
    sels.push(sel);
    assert(sels@ =~= seq![sel]);
    let ms = select_nodes(doc, &sels);
    let ghost all = ref_views(ms@);
    let mut i: usize = 0;
    assert(all.skip(0) =~= all);
    while i < ms.len()
        invariant
            i <= ms@.len() == all.len(),
            all == ref_views(ms@),
            all == select(node_view(*doc), sel_views(seq![sel])),
            first_attr_content(all) == first_attr_content(all.skip(i as int)),
        decreases ms.len() - i,
    {
        let ghost rest = all.skip(i as int);
        assert(rest[0] == node_view(*ms@[i as int]));
        assert(rest.drop_first() =~= all.skip(i + 1));
        if let Some(v) = node_attr(ms[i], "content") {
            return chars_of(v.as_str());
        }
        i += 1;
    }
    proof {
        reveal_strlit("");
    }
    Vec::new()
}

/// The author and date of a page.
pub fn extract_metadata(html: &str) -> (r: (String, String))
    ensures
        (r.0@, r.1@) == page_metadata(crate::dom::document(html@)),
{
    let doc = parse_document(html);
    let s1 = sel_attr_eq("meta", "name", "author");
    assert(sel_views(seq![s1]) =~= seq![("meta"@, Some("name"@), Some("author"@))]);
    let s2 = sel_attr_eq("meta", "property", "article:published_time");
    assert(sel_views(seq![s2]) =~= seq![("meta"@, Some("property"@), Some("article:published_time"@))]);
    let s3 = sel_attr_eq("meta", "name", "date");
    assert(sel_views(seq![s3]) =~= seq![("meta"@, Some("name"@), Some("date"@))]);
    let author = find_meta_content(&doc, s1);
    let published = find_meta_content(&doc, s2);
    let date = if published.len() == 0 {
        find_meta_content(&doc, s3)
    } else {
        published
    };
    (string_of(author.as_slice()), string_of(date.as_slice()))
}

// ── Calls into the outside crates ──────────────────────────────────────────

/// Whether `url::Url::parse` accepts the text as an absolute address.
pub uninterp spec fn url_valid(s: Seq<char>) -> bool;

/// Whether the text parses as an absolute address with `url::Url::parse`.
/// The contract only names the answer (`url_valid`).
#[verifier::external_body]
fn url_parses(s: &str) -> (b: bool)
    ensures
        b == url_valid(s@),
{
    url::Url::parse(s).is_ok()
}

/// What Mozilla's Readability algorithm (`readability::extractor::extract`)
/// finds in a page read at an address: the article's title, its HTML and its
/// text; nothing when the extraction fails.
pub uninterp spec fn readable(html: Seq<char>, url: Seq<char>) -> Option<(Seq<char>, Seq<char>, Seq<char>)>;

/// Runs `readability::extractor::extract` on the page's bytes, with the
/// address parsed by `url::Url::parse`. `None` when the address does not
/// parse or the extraction fails. The contract only names the result
/// (`readable`); the algorithm is the crate's.
#[verifier::external_body]
fn readability_extract(html: &str, url: &str) -> (r: Option<(String, String, String)>)
    ensures
        match r {
            Some(p) => readable(html@, url@) == Some((p.0@, p.1@, p.2@)),
            None => readable(html@, url@) is None,
        },
{
    let u = match url::Url::parse(url) {
        Ok(u) => u,
        Err(_) => return None,
    };
    let mut cursor = std::io::Cursor::new(html.as_bytes());
    match readability::extractor::extract(&mut cursor, &u) {
        Ok(p) => Some((p.title, p.content, p.text)),
        Err(_) => None,
    }
}

/// What `html2text` makes of a page as plain text wrapped at a width
/// (`config::plain().string_from_read`); nothing when it fails.
pub uninterp spec fn html_text(html: Seq<char>, width: nat) -> Option<Seq<char>>;

/// Turns HTML into plain text with `html2text::config::plain()` and
/// `string_from_read`, at the given width. `None` where the crate reports an
/// error (`html2text::from_read` would panic there). The contract only names
/// the result (`html_text`).
#[verifier::external_body]
fn html_to_text(html: &str, width: usize) -> (r: Option<String>)
    ensures
        crate::config::opt_view(r) == html_text(html@, width as nat),
{
    html2text::config::plain().string_from_read(html.as_bytes(), width).ok()
}

// ── Extraction ─────────────────────────────────────────────────────────────

/// Why no article could be extracted.
#[derive(Debug, PartialEq, Eq, Structural, Clone, Copy)]
pub enum ExtractError {
    /// The address does not parse.
    InvalidUrl,
    /// The Readability algorithm failed.
    ExtractionFailed,
    /// The page could not be turned into plain text.
    ConversionFailed,
}

impl ExtractError {
    /// The message reported for the error.
    pub fn message(&self) -> (m: &'static str)
        ensures
            m@ == match *self {
                ExtractError::InvalidUrl => "Invalid URL"@,
                ExtractError::ExtractionFailed => "Readability extraction failed"@,
                ExtractError::ConversionFailed => "Text conversion failed"@,
            },
    {
        match self {
            ExtractError::InvalidUrl => "Invalid URL",
            ExtractError::ExtractionFailed => "Readability extraction failed",
            ExtractError::ConversionFailed => "Text conversion failed",
        }
    }
}

/// An extraction result as values.
pub type OutcomeV = Result<Option<ArticleV>, ExtractError>;

/// The values of an extraction result.
pub open spec fn outcome_view(r: Result<Option<Article>, ExtractError>) -> OutcomeV {
    match r {
        Ok(Some(a)) => Ok(Some(article_view(a))),
        Ok(None) => Ok(None),
        Err(e) => Err(e),
    }
}

/// The elements whose texts make up the fallback article, looked up one
/// name after another.
pub open spec fn content_tags() -> Seq<Seq<char>> {
    seq![
        "p"@,
        "h1"@,
        "h2"@,
        "h3"@,
        "h4"@,
        "h5"@,
        "h6"@,
        "li"@,
        "td"@,
        "th"@,
        "blockquote"@,
        "pre"@,
        "code"@,
        "article"@,
        "section"@,
    ]
}

/// The trimmed texts of the elements that are longer than two bytes.
pub open spec fn long_texts(els: Seq<Tree>) -> Seq<Seq<char>>
    decreases els.len(),
{
    if els.len() == 0 {
        seq![]
    } else {
        let prev = long_texts(els.drop_last());
        let t = trim(text_of(els.last()));
        if t.len() > 0 && encode_utf8(t).len() > 2 {
            prev.push(t)
        } else {
            prev
        }
    }
}

/// The texts of the elements of the first `n` names, name after name.
pub open spec fn content_parts(doc: Tree, tags: Seq<Seq<char>>, n: nat) -> Seq<Seq<char>>
    decreases n,
{
    if n == 0 {
        seq![]
    } else {
        content_parts(doc, tags, (n - 1) as nat) + long_texts(select(doc, tag_sel(tags[n - 1])))
    }
}

/// The article made from a page's text blocks, or, when they are too thin,
/// from the whole page as text; nothing when that is thin too.
pub open spec fn fallback_article(html: Seq<char>, url: Seq<char>, min_len: nat) -> OutcomeV {
    let doc = crate::dom::document(html);
    let text = join(content_parts(doc, content_tags(), 15), seq!['\n']);
    let title = or_default(article_title(doc), url);
    let (author, date) = page_metadata(doc);
    if encode_utf8(trim(text)).len() < min_len {
        match html_text(html, 8888) {
            None => Err(ExtractError::ConversionFailed),
            Some(raw) => if encode_utf8(trim(raw)).len() < min_len {
                Ok(None)
            } else {
                Ok(Some((title, author, date, trim(raw), url)))
            },
        }
    } else {
        Ok(Some((title, author, date, boilerplate_trimmed(text, min_len), url)))
    }
}

/// The article from Readability's text when it is long enough, else the
/// fallback article. No text means the conversion to text failed.
pub open spec fn readability_article(
    html: Seq<char>,
    url: Seq<char>,
    min_len: nat,
    title: Seq<char>,
    text: Option<Seq<char>>,
) -> OutcomeV {
    match text {
        None => Err(ExtractError::ConversionFailed),
        Some(t) => if encode_utf8(trim(t)).len() >= min_len {
            let (author, date) = page_metadata(crate::dom::document(html));
            Ok(Some((title, author, date, trim(t), url)))
        } else {
            fallback_article(html, url, min_len)
        },
    }
}

/// The article of a page: nothing for a page that stands
/// in for the real one; an error for an address that does not parse or when
/// Readability fails; otherwise Readability's article (its HTML as text when
/// links are wanted, its plain text otherwise) or the fallback article.
pub open spec fn content_article(html: Seq<char>, url: Seq<char>, min_len: nat, include_links: bool) -> OutcomeV {
    if blocked_reason(html) is Some {
        Ok(None)
    } else if !url_valid(url) {
        Err(ExtractError::InvalidUrl)
    } else {
        match readable(html, url) {
            None => Err(ExtractError::ExtractionFailed),
            Some(p) => readability_article(
                html,
                url,
                min_len,
                p.0,
                if include_links {
                    html_text(p.1, 8888)
                } else {
                    Some(p.2)
                },
            ),
        }
    }
}

/// Whether a text takes fewer than `n` bytes in UTF-8.
fn utf8_shorter_than(t: &[char], n: usize) -> (b: bool)
    ensures
        b == (encode_utf8(t@).len() < n),
{
    if n == 0 {
        false
    } else {
        !crate::text::utf8_longer_than(t, n - 1)
    }
}

/// The names of the elements whose texts make up the fallback article.
fn content_tag_list() -> (v: Vec<&'static str>)
    ensures
        v@.map_values(|t: &str| t@) == content_tags(),
{
    let mut v: Vec<&'static str> = Vec::new();
    v.push("p");
    v.push("h1");
    v.push("h2");
    v.push("h3");
    v.push("h4");
    v.push("h5");
    v.push("h6");
    v.push("li");
    v.push("td");
    v.push("th");
    v.push("blockquote");
    v.push("pre");
    v.push("code");
    v.push("article");
    v.push("section");
    assert(v@.map_values(|t: &str| t@) =~= content_tags());
    v
}

/// Appends the texts of the nodes that are longer than two bytes.
fn push_long_texts(els: &Vec<&DomNode>, out: &mut Vec<Vec<char>>)
    ensures
        char_views(final(out)@) == char_views(old(out)@) + long_texts(ref_views(els@)),
{
    let ghost ev = ref_views(els@);
    let ghost start = char_views(out@);
    assert(start + long_texts(ev.take(0)) =~= start);
    let mut i: usize = 0;
    while i < els.len()
        invariant
            i <= els@.len() == ev.len(),
            ev == ref_views(els@),
            char_views(out@) == start + long_texts(ev.take(i as int)),
        decreases els.len() - i,
    {
        assert(ev.take(i + 1 as int).drop_last() =~= ev.take(i as int));
        assert(ev[i as int] == node_view(*els@[i as int]));
        let raw = text_of_node(els[i]);
        let t = trim_chars(raw.as_slice());
        if t.len() > 0 && crate::text::utf8_longer_than(t.as_slice(), 2) {
            let ghost before = char_views(out@);
            out.push(t);
            assert(char_views(out@) =~= before.push(out@.last()@));
            assert(start + long_texts(ev.take(i + 1 as int)) =~= before.push(out@.last()@));
        }
        i += 1;
    }
    assert(ev.take(i as int) =~= ev);
}

/// The article made from a page's text blocks, or from the whole page as
/// text when they are too thin.
pub fn fallback_extract(html: &str, url: &str, config: &crate::config::Config) -> (r: Result<Option<Article>, ExtractError>)
    ensures
        outcome_view(r) == fallback_article(html@, url@, config.min_extracted_length as nat),
{
    let min_len = config.min_extracted_length;
    let doc = parse_document(html);
    let tags = content_tag_list();
    let ghost tv = tags@.map_values(|t: &str| t@);
    assert(tv.len() == tags@.len());
    assert(content_tags().len() == 15);
    let mut parts: Vec<Vec<char>> = Vec::new();
    let mut k: usize = 0;
    while k < tags.len()
        invariant
            k <= tags@.len() == 15,
            tv == tags@.map_values(|t: &str| t@),
            tv == content_tags(),
            char_views(parts@) == content_parts(node_view(doc), tv, k as nat),
        decreases tags.len() - k,
    {
        let mut sels: Vec<SimpleSel> = Vec::new();
        sels.push(sel_tag(tags[k]));
        assert(sel_views(sels@) =~= tag_sel(tv[k as int]));
        let els = select_nodes(&doc, &sels);
        push_long_texts(&els, &mut parts);
        k += 1;
    }
    let text = join_with(&parts, '\n');
    let title = match extract_title(&doc) {
        Some(t) => t,
        None => string_of(chars_of(url).as_slice()),
    };
    let trimmed = trim_chars(text.as_slice());
    let url_s = string_of(chars_of(url).as_slice());
    if utf8_shorter_than(trimmed.as_slice(), min_len) {
        match html_to_text(html, 8888) {
            None => Err(ExtractError::ConversionFailed),
            Some(raw) => {
                let rt = crate::text::trim_str(raw.as_str());
                if utf8_shorter_than(rt.as_slice(), min_len) {
                    Ok(None)
                } else {
                    let (author, date) = extract_metadata(html);
                    Ok(Some(Article { title, author, date, text: string_of(rt.as_slice()), url: url_s }))
                }
            },
        }
    } else {
        let ts = string_of(text.as_slice());
        let body = trim_boilerplate(ts.as_str(), min_len);
        let (author, date) = extract_metadata(html);
        Ok(Some(Article { title, author, date, text: body, url: url_s }))
    }
}

/// The article from Readability's title and text, or the fallback article
/// when the text is too short. `None` for the text means that it could not
/// be made.
pub fn article_from_readability(
    html: &str,
    url: &str,
    config: &crate::config::Config,
    title: String,
    text: Option<String>,
) -> (r: Result<Option<Article>, ExtractError>)
    ensures
        outcome_view(r) == readability_article(
            html@,
            url@,
            config.min_extracted_length as nat,
            title@,
            crate::config::opt_view(text),
        ),
{
    match text {
        None => Err(ExtractError::ConversionFailed),
        Some(t) => {
            let tc = crate::text::trim_str(t.as_str());
            if !utf8_shorter_than(tc.as_slice(), config.min_extracted_length) {
                let (author, date) = extract_metadata(html);
                Ok(Some(Article {
                    title,
                    author,
                    date,
                    text: string_of(tc.as_slice()),
                    url: string_of(chars_of(url).as_slice()),
                }))
            } else {
                fallback_extract(html, url, config)
            }
        },
    }
}

/// The article of a page, as reader mode prints it.
pub fn extract_content(html: &str, url_str: &str, config: &crate::config::Config) -> (r: Result<Option<Article>, ExtractError>)
    ensures
        outcome_view(r) == content_article(
            html@,
            url_str@,
            config.min_extracted_length as nat,
            config.include_links,
        ),
{
    if detect_blocked_page(html).is_some() {
        return Ok(None);
    }
    if !url_parses(url_str) {
        return Err(ExtractError::InvalidUrl);
    }
    match readability_extract(html, url_str) {
        None => Err(ExtractError::ExtractionFailed),
        Some((title, content, text)) => {
            let text_content = if config.include_links {
                html_to_text(content.as_str(), 8888)
            } else {
                Some(text)
            };
            article_from_readability(html, url_str, config, title, text_content)
        },
    }
}

} // verus!
