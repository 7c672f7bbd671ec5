//! A document tree of plain values, and what the page logic reads from it:
//! the text under a node, an element's attributes, and the elements that
//! match a simple selector, in document order.
//!
//! The HTML itself is parsed by the `scraper` crate (html5ever); the trusted
//! item below hands its nodes over in document order with their depth, and the
//! tree is rebuilt from that list here.
use vstd::prelude::*;
use crate::text::{chars_equal, chars_of};

verus! {

/// An attribute: namespace, local name and value.
pub struct Attr {
    pub ns: String,
    pub name: String,
    pub value: String,
}

/// What a document node is, without its children.
pub enum NodeKind {
    Element(String, Vec<Attr>),
    Text(String),
    /// A comment, doctype or processing instruction.
    Other,
}

/// A node in document order, with its number of ancestors.
pub struct FlatNode {
    pub depth: usize,
    pub kind: NodeKind,
}

/// An element: its local name, its attributes and its children.
pub struct Element {
    pub name: String,
    pub attrs: Vec<Attr>,
    pub children: Vec<DomNode>,
}

/// A document node.
pub enum DomNode {
    Element(Element),
    Text(String),
    Other,
}

/// The nodes of the parsed document, from the root element down, in document
/// order, with their depth.
pub uninterp spec fn parsed_nodes(html: Seq<char>) -> Seq<FlatNode>;

/// Parses an HTML document with `scraper::Html::parse_document` (html5ever,
/// which never fails) and lists the nodes under and including the root
/// element in document order: `descendants()` walks them, `ancestors()`
/// counts each node's depth, and each node is copied into plain values, one
/// for one. The parse depends on the text alone; its result is named
/// `parsed_nodes`.
#[verifier::external_body]
pub(crate) fn parse_nodes(html: &str) -> (nodes: Vec<FlatNode>)
    ensures
        nodes@ == parsed_nodes(html@),
{
    let doc = scraper::Html::parse_document(html);
    let mut out = Vec::new();
    for n in doc.root_element().descendants() {
        let kind = match n.value() {
            scraper::Node::Element(e) => NodeKind::Element(e.name().to_string(), e.attrs.iter().map(|(k, v)| Attr { ns: k.ns.to_string(), name: k.local.to_string(), value: v.to_string() }).collect()),
            scraper::Node::Text(t) => NodeKind::Text(t.text.to_string()),
            _ => NodeKind::Other,
        };
        out.push(FlatNode { depth: n.ancestors().count(), kind });
    }
    out
}

// ── The tree as a mathematical value ───────────────────────────────────────

/// An attribute's namespace, local name and value.
pub type AttrV = (Seq<char>, Seq<char>, Seq<char>);

/// A document tree.
pub enum Tree {
    Elem { name: Seq<char>, attrs: Seq<AttrV>, kids: Seq<Tree> },
    Text(Seq<char>),
    Other,
}

/// The views of a sequence of attributes.
pub open spec fn attr_views(v: Seq<Attr>) -> Seq<AttrV> {
    v.map_values(|a: Attr| (a.ns@, a.name@, a.value@))
}

/// The tree that a node stands for.
pub open spec fn node_view(n: DomNode) -> Tree
    decreases n, 0nat,
{
    match n {
        DomNode::Element(e) => Tree::Elem {
            name: e.name@,
            attrs: attr_views(e.attrs@),
            kids: kids_view(e.children@),
        },
        DomNode::Text(t) => Tree::Text(t@),
        DomNode::Other => Tree::Other,
    }
}

/// The trees that a sequence of nodes stands for.
pub open spec fn kids_view(cs: Seq<DomNode>) -> Seq<Tree>
    decreases cs, 1nat,
{
    if cs.len() == 0 {
        seq![]
    } else {
        kids_view(cs.drop_last()).push(node_view(cs.last()))
    }
}

/// The tree viewed through its nodes, one at a time.
pub proof fn lemma_kids_view(cs: Seq<DomNode>)
    ensures
        kids_view(cs).len() == cs.len(),
        forall|i: int| 0 <= i < cs.len() ==> #[trigger] kids_view(cs)[i] == node_view(cs[i]),
    decreases cs.len(),
{
    if cs.len() > 0 {
        lemma_kids_view(cs.drop_last());
        assert forall|i: int| 0 <= i < cs.len() implies #[trigger] kids_view(cs)[i] == node_view(cs[i]) by {
            if i < cs.len() - 1 {
                assert(cs.drop_last()[i] == cs[i]);
            }
        }
    }
}

/// The view of a node list after a push.
pub proof fn lemma_kids_view_push(cs: Seq<DomNode>, x: DomNode)
    ensures
        kids_view(cs.push(x)) == kids_view(cs).push(node_view(x)),
{
    assert(cs.push(x).drop_last() =~= cs);
}

/// A node made from its kind and its children.
pub open spec fn kind_tree(kind: NodeKind, kids: Seq<Tree>) -> Tree {
    match kind {
        NodeKind::Element(name, attrs) => Tree::Elem { name: name@, attrs: attr_views(attrs@), kids },
        NodeKind::Text(t) => Tree::Text(t@),
        NodeKind::Other => Tree::Other,
    }
}

/// The run of sibling trees at depth `d` that starts at position `i` of the
/// node list, each with the deeper nodes that follow it as its descendants,
/// and the position after the run.
pub open spec fn siblings(flat: Seq<FlatNode>, i: int, d: int) -> (Seq<Tree>, int)
    decreases flat.len() - i,
{
    if i < 0 || i >= flat.len() || flat[i].depth != d {
        (seq![], i)
    } else {
        let (kids, j) = siblings(flat, i + 1, d + 1);
        let next = if i < j <= flat.len() {
            j
        } else {
            i + 1
        };
        let (rest, k) = siblings(flat, next, d);
        (seq![kind_tree(flat[i].kind, kids)] + rest, k)
    }
}

/// The document tree rebuilt from its nodes in document order.
pub open spec fn tree_of(flat: Seq<FlatNode>) -> Tree {
    if flat.len() == 0 {
        Tree::Other
    } else {
        let (top, _) = siblings(flat, 0, flat[0].depth as int);
        if top.len() > 0 {
            top[0]
        } else {
            Tree::Other
        }
    }
}

/// The tree of the document parsed from the text.
pub open spec fn document(html: Seq<char>) -> Tree {
    tree_of(parsed_nodes(html))
}

// ── Copies ─────────────────────────────────────────────────────────────────

/// A copy of an attribute list.
fn copy_attrs(v: &Vec<Attr>) -> (r: Vec<Attr>)
    ensures
        attr_views(r@) == attr_views(v@),
{
    let mut r: Vec<Attr> = Vec::new();
    let mut i: usize = 0;
    while i < v.len()
        invariant
            i <= v@.len(),
            attr_views(r@) == attr_views(v@).take(i as int),
        decreases v.len() - i,
    {
        let ghost before = attr_views(r@);
        let a = Attr { ns: v[i].ns.clone(), name: v[i].name.clone(), value: v[i].value.clone() };
        r.push(a);
        assert(attr_views(r@) =~= before.push((v@[i as int].ns@, v@[i as int].name@, v@[i as int].value@)));
        i += 1;
        assert(attr_views(r@) =~= attr_views(v@).take(i as int));
    }
    assert(attr_views(v@).take(i as int) =~= attr_views(v@));
    r
}

/// A node with the given kind and children.
fn make_node(kind: &NodeKind, kids: Vec<DomNode>) -> (n: DomNode)
    ensures
        node_view(n) == kind_tree(*kind, kids_view(kids@)),
{
    match kind {
        NodeKind::Element(name, attrs) => DomNode::Element(
            Element { name: name.clone(), attrs: copy_attrs(attrs), children: kids },
        ),
        NodeKind::Text(t) => DomNode::Text(t.clone()),
        NodeKind::Other => DomNode::Other,
    }
}

/// Rebuilds the run of siblings at depth `d` starting at position `i`.
fn build_siblings(flat: &Vec<FlatNode>, i: usize, d: usize) -> (r: (Vec<DomNode>, usize))
    requires
        i <= flat@.len(),
    ensures
        kids_view(r.0@) == siblings(flat@, i as int, d as int).0,
        r.1 == siblings(flat@, i as int, d as int).1,
        i <= r.1 <= flat@.len(),
    decreases flat@.len() - i, 1nat,
{
    let n = flat.len();
    let mut out: Vec<DomNode> = Vec::new();
    let mut pos = i;
    assert(kids_view(out@) =~= Seq::<Tree>::empty());
    while pos < n && flat[pos].depth == d
        invariant
            i <= pos <= n == flat@.len(),
            siblings(flat@, i as int, d as int).0 == kids_view(out@) + siblings(
                flat@,
                pos as int,
                d as int,
            ).0,
            siblings(flat@, i as int, d as int).1 == siblings(flat@, pos as int, d as int).1,
        decreases n - pos,
    {
        let (kids, j) = if d < usize::MAX {
            build_children(flat, pos, d)
        } else {
            (Vec::new(), pos + 1)
        };
        proof {
            if d == usize::MAX {
                assert(kids_view(kids@) =~= Seq::<Tree>::empty());
                assert(siblings(flat@, pos + 1, d + 1).0 =~= Seq::<Tree>::empty());
            }
        }
        let next = if pos < j && j <= n { j } else { pos + 1 };
        let node = make_node(&flat[pos].kind, kids);
        let ghost before = kids_view(out@);
        let ghost old_out = out@;
        out.push(node);
        proof {
            lemma_kids_view_push(old_out, node);
            assert(kids_view(out@) == before.push(node_view(node)));
            assert(before.push(node_view(node)) + siblings(flat@, next as int, d as int).0 =~= before
                + (seq![node_view(node)] + siblings(flat@, next as int, d as int).0));
        }
        pos = next;
    }
    (out, pos)
}

/// Rebuilds the children of the node at position `pos`, whose depth is `d`.
fn build_children(flat: &Vec<FlatNode>, pos: usize, d: usize) -> (r: (Vec<DomNode>, usize))
    requires
        pos < flat.len(),
        d < usize::MAX,
    ensures
        kids_view(r.0@) == siblings(flat@, pos + 1, d + 1).0,
        r.1 == siblings(flat@, pos + 1, d + 1).1,
    decreases flat@.len() - pos, 0nat,
{
    build_siblings(flat, pos + 1, d + 1)
}

/// Rebuilds the document tree from its nodes in document order.
pub fn build_tree(flat: &Vec<FlatNode>) -> (t: DomNode)
    ensures
        node_view(t) == tree_of(flat@),
{
    if flat.len() == 0 {
        return DomNode::Other;
    }
    let (mut top, _) = build_siblings(flat, 0, flat[0].depth);
    proof {
        lemma_kids_view(top@);
    }
    if top.len() > 0 {
        top.swap_remove(0)
    } else {
        DomNode::Other
    }
}

/// Parses an HTML document into a tree.
pub fn parse_document(html: &str) -> (t: DomNode)
    ensures
        node_view(t) == document(html@),
{
    let nodes = parse_nodes(html);
    build_tree(&nodes)
}

// ── Reading the tree ───────────────────────────────────────────────────────

/// All text under a tree, in document order (`ElementRef::text`).
pub open spec fn text_of(t: Tree) -> Seq<char>
    decreases t, 0nat,
{
    match t {
        Tree::Elem { kids, .. } => texts_of(kids),
        Tree::Text(s) => s,
        Tree::Other => seq![],
    }
}

/// All text under a sequence of trees, in order.
pub open spec fn texts_of(ts: Seq<Tree>) -> Seq<char>
    decreases ts, 1nat,
{
    if ts.len() == 0 {
        seq![]
    } else {
        texts_of(ts.drop_last()) + text_of(ts.last())
    }
}

/// The value of the first attribute in no namespace with the given name.
pub open spec fn attr_of(attrs: Seq<AttrV>, name: Seq<char>) -> Option<Seq<char>>
    decreases attrs.len(),
{
    if attrs.len() == 0 {
        None
    } else if attrs[0].0.len() == 0 && attrs[0].1 == name {
        Some(attrs[0].2)
    } else {
        attr_of(attrs.drop_first(), name)
    }
}

/// The element's attribute with the given name, if it is an element.
pub open spec fn tree_attr(t: Tree, name: Seq<char>) -> Option<Seq<char>> {
    match t {
        Tree::Elem { attrs, .. } => attr_of(attrs, name),
        _ => None,
    }
}

/// The element's name, or nothing for other nodes.
pub open spec fn tree_name(t: Tree) -> Seq<char> {
    match t {
        Tree::Elem { name, .. } => name,
        _ => seq![],
    }
}

/// The children of an element, or nothing for other nodes.
pub open spec fn tree_kids(t: Tree) -> Seq<Tree> {
    match t {
        Tree::Elem { kids, .. } => kids,
        _ => seq![],
    }
}

/// The elements of a tree in document order, the tree itself first.
pub open spec fn elements(t: Tree) -> Seq<Tree>
    decreases t, 0nat,
{
    match t {
        Tree::Elem { kids, .. } => seq![t] + elements_of(kids),
        _ => seq![],
    }
}

/// The elements of a sequence of trees, in document order.
pub open spec fn elements_of(ts: Seq<Tree>) -> Seq<Tree>
    decreases ts, 1nat,
{
    if ts.len() == 0 {
        seq![]
    } else {
        elements_of(ts.drop_last()) + elements(ts.last())
    }
}

/// One simple selector: an element name, optionally an attribute that must
/// be present, optionally with a required value.
pub struct SimpleSel {
    pub tag: &'static str,
    pub attr: Option<&'static str>,
    pub value: Option<&'static str>,
}

/// A simple selector as values: name, attribute, value.
pub type SelV = (Seq<char>, Option<Seq<char>>, Option<Seq<char>>);

/// The views of a selector list.
pub open spec fn sel_views(v: Seq<SimpleSel>) -> Seq<SelV> {
    v.map_values(
        |s: SimpleSel|
            (
                s.tag@,
                match s.attr {
                    Some(a) => Some(a@),
                    None => None,
                },
                match s.value {
                    Some(x) => Some(x@),
                    None => None,
                },
            ),
    )
}

/// Whether an element matches a simple selector.
pub open spec fn simple_matches(s: SelV, t: Tree) -> bool {
    &&& t is Elem
    &&& tree_name(t) == s.0
    &&& match s.1 {
        None => true,
        Some(a) => match tree_attr(t, a) {
            None => false,
            Some(v) => match s.2 {
                None => true,
                Some(want) => v == want,
            },
        },
    }
}

/// Whether an element matches any selector of the list.
pub open spec fn sel_matches(sels: Seq<SelV>, t: Tree) -> bool {
    exists|i: int| 0 <= i < sels.len() && simple_matches(#[trigger] sels[i], t)
}

/// The predicate of a selector list.
pub open spec fn matcher(sels: Seq<SelV>) -> spec_fn(Tree) -> bool {
    |t: Tree| sel_matches(sels, t)
}

/// The elements of a tree that match the selector list, in document order
/// (`Html::select`).
pub open spec fn select(t: Tree, sels: Seq<SelV>) -> Seq<Tree> {
    elements(t).filter(matcher(sels))
}

/// The elements below a tree (not the tree itself) that match the selector
/// list, in document order (`ElementRef::select`).
pub open spec fn select_below(t: Tree, sels: Seq<SelV>) -> Seq<Tree> {
    elements_of(tree_kids(t)).filter(matcher(sels))
}

/// The views of a sequence of node references.
pub open spec fn ref_views(v: Seq<&DomNode>) -> Seq<Tree> {
    v.map_values(|n: &DomNode| node_view(*n))
}

/// The child of an element node at a position, seen as a tree.
proof fn lemma_child_view(e: &Element, k: int)
    requires
        0 <= k < e.children@.len(),
    ensures
        kids_view(e.children@)[k] == node_view(e.children@[k]),
        kids_view(e.children@).len() == e.children@.len(),
{
    lemma_kids_view(e.children@);
}

/// The text under a node, in document order.
pub fn text_of_node(n: &DomNode) -> (r: Vec<char>)
    ensures
        r@ == text_of(node_view(*n)),
    decreases n,
{
    match n {
        DomNode::Element(e) => text_of_kids(e),
        DomNode::Text(t) => chars_of(t.as_str()),
        DomNode::Other => Vec::new(),
    }
}

/// The text under an element's children, in document order.
fn text_of_kids(e: &Element) -> (r: Vec<char>)
    ensures
        r@ == texts_of(kids_view(e.children@)),
    decreases e,
{
    let mut out: Vec<char> = Vec::new();
    let ghost kids = kids_view(e.children@);
    proof {
        lemma_kids_view(e.children@);
    }
    let mut k: usize = 0;
    while k < e.children.len()
        invariant
            k <= e.children@.len() == kids.len(),
            kids == kids_view(e.children@),
            out@ == texts_of(kids.take(k as int)),
        decreases e.children.len() - k,
    {
        proof {
            lemma_child_view(e, k as int);
        }
        assert(kids.take(k + 1 as int).drop_last() =~= kids.take(k as int));
        let t = text_of_node(&e.children[k]);
        crate::text::extend_chars(&mut out, t.as_slice());
        k += 1;
    }
    assert(kids.take(k as int) =~= kids);
    out
}

/// The value of the first attribute in no namespace with the given name.
pub fn attr_value<'a>(attrs: &'a Vec<Attr>, name: &str) -> (r: Option<&'a String>)
    ensures
        match r {
            Some(v) => attr_of(attr_views(attrs@), name@) == Some(v@),
            None => attr_of(attr_views(attrs@), name@) is None,
        },
{
    let want = chars_of(name);
    let ghost all = attr_views(attrs@);
    let mut i: usize = 0;
    assert(all.skip(0) =~= all);
    while i < attrs.len()
        invariant
            i <= attrs@.len(),
            want@ == name@,
            all == attr_views(attrs@),
            attr_of(all, name@) == attr_of(all.skip(i as int), name@),
        decreases attrs.len() - i,
    {
        let ghost rest = all.skip(i as int);
        assert(rest[0] == all[i as int]);
        let ns_empty = attrs[i].ns.as_str().is_empty();
        let n = chars_of(attrs[i].name.as_str());
        if ns_empty && chars_equal(n.as_slice(), want.as_slice()) {
            return Some(&attrs[i].value);
        }
        assert(rest.drop_first() =~= all.skip(i + 1));
        i += 1;
    }
    None
}

/// The node's attribute with the given name, if it is an element that has it.
pub fn node_attr<'a>(n: &'a DomNode, name: &str) -> (r: Option<&'a String>)
    ensures
        match r {
            Some(v) => tree_attr(node_view(*n), name@) == Some(v@),
            None => tree_attr(node_view(*n), name@) is None,
        },
{
    match n {
        DomNode::Element(e) => attr_value(&e.attrs, name),
        _ => None,
    }
}

/// Whether the element matches the simple selector.
fn simple_matches_exec(n: &DomNode, s: &SimpleSel) -> (b: bool)
    ensures
        b == simple_matches(sel_views(seq![*s])[0], node_view(*n)),
{
    match n {
        DomNode::Element(e) => {
            let name = chars_of(e.name.as_str());
            let tag = chars_of(s.tag);
            if !chars_equal(name.as_slice(), tag.as_slice()) {
                return false;
            }
            match s.attr {
                None => true,
                Some(a) => match attr_value(&e.attrs, a) {
                    None => false,
                    Some(v) => match s.value {
                        None => true,
                        Some(want) => {
                            let vc = chars_of(v.as_str());
                            let wc = chars_of(want);
                            chars_equal(vc.as_slice(), wc.as_slice())
                        },
                    },
                },
            }
        },
        _ => false,
    }
}

/// Whether the node matches any selector of the list.
pub fn sel_matches_exec(n: &DomNode, sels: &Vec<SimpleSel>) -> (b: bool)
    ensures
        b == sel_matches(sel_views(sels@), node_view(*n)),
{
    let mut i: usize = 0;
    while i < sels.len()
        invariant
            i <= sels@.len(),
            forall|k: int| 0 <= k < i ==> !simple_matches(#[trigger] sel_views(sels@)[k], node_view(*n)),
        decreases sels.len() - i,
    {
        assert(sel_views(seq![sels@[i as int]])[0] == sel_views(sels@)[i as int]);
        if simple_matches_exec(n, &sels[i]) {
            return true;
        }
        i += 1;
    }
    false
}

/// Appends the matching elements of a tree, in document order.
fn collect_matching<'a>(n: &'a DomNode, sels: &Vec<SimpleSel>, out: &mut Vec<&'a DomNode>)
    ensures
        ref_views(final(out)@) == ref_views(old(out)@) + elements(node_view(*n)).filter(
            matcher(sel_views(sels@)),
        ),
    decreases n,
{
    broadcast use Seq::filter_distributes_over_add;

    match n {
        DomNode::Element(e) => {
            let ghost pred = matcher(sel_views(sels@));
            let ghost before = ref_views(out@);
            let ghost t = node_view(*n);
            proof {
                reveal(Seq::filter);
                assert(seq![t].drop_last() =~= Seq::<Tree>::empty());
                assert(seq![t].last() == t);
                assert(Seq::<Tree>::empty().filter(pred) =~= Seq::<Tree>::empty());
            }
            if sel_matches_exec(n, sels) {
                out.push(n);
                assert(ref_views(out@) =~= before + seq![t].filter(pred));
            } else {
                assert(seq![t].filter(pred) =~= Seq::<Tree>::empty());
                assert(ref_views(out@) =~= before + seq![t].filter(pred));
            }
            collect_below(e, sels, out);
            assert(elements(t) == seq![t] + elements_of(kids_view(e.children@)));
        },
        _ => {
            assert(elements(node_view(*n)) =~= Seq::<Tree>::empty());
            assert(Seq::<Tree>::empty().filter(matcher(sel_views(sels@))) =~= Seq::<Tree>::empty()) by {
                reveal(Seq::filter);
            }
            assert(ref_views(out@) + Seq::<Tree>::empty() =~= ref_views(out@));
        },
    }
}

/// Appends the matching elements below an element, in document order.
fn collect_below<'a>(e: &'a Element, sels: &Vec<SimpleSel>, out: &mut Vec<&'a DomNode>)
    ensures
        ref_views(final(out)@) == ref_views(old(out)@) + elements_of(kids_view(e.children@)).filter(
            matcher(sel_views(sels@)),
        ),
    decreases e,
{
    broadcast use Seq::filter_distributes_over_add;

    let ghost kids = kids_view(e.children@);
    let ghost pred = matcher(sel_views(sels@));
    proof {
        lemma_kids_view(e.children@);
        reveal(Seq::filter);
    }
    let ghost start = ref_views(out@);
    assert(elements_of(kids.take(0)) =~= Seq::<Tree>::empty());
    assert(start + elements_of(kids.take(0)).filter(pred) =~= start);
    let mut k: usize = 0;
    while k < e.children.len()
        invariant
            k <= e.children@.len() == kids.len(),
            kids == kids_view(e.children@),
            pred == matcher(sel_views(sels@)),
            ref_views(out@) == start + elements_of(kids.take(k as int)).filter(pred),
        decreases e.children.len() - k,
    {
        proof {
            lemma_child_view(e, k as int);
        }
        assert(kids.take(k + 1 as int).drop_last() =~= kids.take(k as int));
        collect_matching(&e.children[k], sels, out);
        k += 1;
    }
    assert(kids.take(k as int) =~= kids);
}

/// The elements of the tree that match the selector list, in document order.
pub fn select_nodes<'a>(n: &'a DomNode, sels: &Vec<SimpleSel>) -> (r: Vec<&'a DomNode>)
    ensures
        ref_views(r@) == select(node_view(*n), sel_views(sels@)),
{
    let mut out: Vec<&'a DomNode> = Vec::new();
    collect_matching(n, sels, &mut out);
    assert(ref_views(out@) =~= Seq::<Tree>::empty() + select(node_view(*n), sel_views(sels@)));
    out
}

/// The elements below the node that match the selector list, in document
/// order.
pub fn select_nodes_below<'a>(n: &'a DomNode, sels: &Vec<SimpleSel>) -> (r: Vec<&'a DomNode>)
    ensures
        ref_views(r@) == select_below(node_view(*n), sel_views(sels@)),
{
    let mut out: Vec<&'a DomNode> = Vec::new();
    match n {
        DomNode::Element(e) => {
            collect_below(e, sels, &mut out);
        },
        _ => {
            proof {
                reveal(Seq::filter);
            }
        },
    }
    assert(ref_views(out@) =~= Seq::<Tree>::empty() + select_below(node_view(*n), sel_views(sels@)));
    out
}

/// A selector for an element name.
pub fn sel_tag(tag: &'static str) -> (s: SimpleSel)
    ensures
        s.tag == tag,
        s.attr is None,
        s.value is None,
{
    SimpleSel { tag, attr: None, value: None }
}

/// A selector for an element name with an attribute of a given value.
pub fn sel_attr_eq(tag: &'static str, attr: &'static str, value: &'static str) -> (s: SimpleSel)
    ensures
        s.tag == tag,
        s.attr == Some(attr),
        s.value == Some(value),
{
    SimpleSel { tag, attr: Some(attr), value: Some(value) }
}

/// A selector for an element name with an attribute present.
pub fn sel_has_attr(tag: &'static str, attr: &'static str) -> (s: SimpleSel)
    ensures
        s.tag == tag,
        s.attr == Some(attr),
        s.value is None,
{
    SimpleSel { tag, attr: Some(attr), value: None }
}

} // verus!
