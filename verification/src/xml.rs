//! A flat document-order model of a parsed XML document.
//!
//! The pipeline never walks an XML tree: the trusted parser hands back every
//! node in document order as plain data (tag name, attributes, leading text),
//! and all element probing is verified code over that list.

use vstd::prelude::*;

use crate::strutil::str_eq;

verus! {

/// One attribute of an element: local name and value.
pub struct XmlAttr {
    pub name: String,
    pub value: String,
}

/// The mathematical value of an [`XmlAttr`].
pub ghost struct XmlAttrView {
    pub name: Seq<char>,
    pub value: Seq<char>,
}

impl View for XmlAttr {
    type V = XmlAttrView;

    open spec fn view(&self) -> XmlAttrView {
        XmlAttrView { name: self.name@, value: self.value@ }
    }
}

/// One node of a parsed document. Non-element nodes carry an empty tag name,
/// so probing by tag name passes over them.
pub struct XmlNode {
    /// The element's local tag name; empty for non-element nodes.
    pub tag: String,
    /// The element's attributes, by local name, in document order.
    pub attrs: Vec<XmlAttr>,
    /// The node's leading text: for an element, its first text child.
    pub text: Option<String>,
}

/// The mathematical value of an [`XmlNode`].
pub ghost struct XmlNodeView {
    pub tag: Seq<char>,
    pub attrs: Seq<XmlAttrView>,
    pub text: Option<Seq<char>>,
}

impl View for XmlNode {
    type V = XmlNodeView;

    open spec fn view(&self) -> XmlNodeView {
        XmlNodeView {
            tag: self.tag@,
            attrs: self.attrs@.map_values(|a: XmlAttr| a@),
            text: match self.text {
                Some(t) => Some(t@),
                None => None,
            },
        }
    }
}

/// The values of a list of nodes.
pub open spec fn nodes_view(v: Seq<XmlNode>) -> Seq<XmlNodeView> {
    v.map_values(|n: XmlNode| n@)
}

/// The values of a list of strings.
pub open spec fn strings_view(v: Seq<String>) -> Seq<Seq<char>> {
    v.map_values(|s: String| s@)
}

/// What parsing a document text yields: `None` when the text is not
/// well-formed XML under the pipeline's tolerances, otherwise every node of
/// the tree in document order.
pub uninterp spec fn xml_tree(text: Seq<char>) -> Option<Seq<XmlNodeView>>;

/// Relies on `roxmltree::Document::parse_with_options` with internal DTD
/// subsets allowed and no node-count ceiling: whether parsing succeeds and
/// what tree it yields depend on the text alone; `descendants` walks the tree
/// in document order; `tag_name().name()` is empty for non-element nodes;
/// `text()` is the node's first text child.
#[verifier::external_body]
pub(crate) fn parse_document(text: &str) -> (r: Option<Vec<XmlNode>>)
    ensures
        r is Some <==> xml_tree(text@) is Some,
        r matches Some(v) ==> Some(nodes_view(v@)) == xml_tree(text@),
{
    let opts = roxmltree::ParsingOptions { allow_dtd: true, nodes_limit: u32::MAX };
    match roxmltree::Document::parse_with_options(text, opts) {
        Ok(doc) => Some(doc.descendants().map(|n| XmlNode {
            tag: n.tag_name().name().to_string(),
            attrs: n.attributes().map(|a| XmlAttr {
                name: a.name().to_string(),
                value: a.value().to_string(),
            }).collect(),
            text: n.text().map(|t| t.to_string()),
        }).collect()),
        Err(_) => None,
    }
}

/// Keeps the value of an attribute named `name`, drops any other attribute.
pub open spec fn attr_pick(name: Seq<char>) -> spec_fn(XmlAttrView) -> Option<Seq<char>> {
    |a: XmlAttrView| if a.name == name { Some(a.value) } else { None }
}

/// The value of the first attribute named `name`, if any.
pub open spec fn attr_of(n: XmlNodeView, name: Seq<char>) -> Option<Seq<char>> {
    let hits = n.attrs.filter_map(attr_pick(name));
    if hits.len() == 0 {
        None
    } else {
        Some(hits[0])
    }
}

/// Keeps a node whose tag is `tag`, drops any other node.
pub open spec fn tag_pick(tag: Seq<char>) -> spec_fn(XmlNodeView) -> Option<XmlNodeView> {
    |n: XmlNodeView| if n.tag == tag { Some(n) } else { None }
}

/// The first node tagged `tag`, if any.
pub open spec fn first_tagged(nodes: Seq<XmlNodeView>, tag: Seq<char>) -> Option<XmlNodeView> {
    let hits = nodes.filter_map(tag_pick(tag));
    if hits.len() == 0 {
        None
    } else {
        Some(hits[0])
    }
}

/// `filter_map` distributes over concatenation.
pub proof fn lemma_filter_map_add<A, B>(a: Seq<A>, b: Seq<A>, f: spec_fn(A) -> Option<B>)
    ensures
        (a + b).filter_map(f) == a.filter_map(f) + b.filter_map(f),
    decreases b.len(),
{
    if b.len() == 0 {
        assert(a + b =~= a);
        assert(a.filter_map(f) + b.filter_map(f) =~= a.filter_map(f));
    } else {
        let rest = b.drop_last();
        lemma_filter_map_add(a, rest, f);
        assert((a + b).drop_last() =~= a + rest);
        assert((a + b).last() == b.last());
        match f(b.last()) {
            Some(x) => {
                assert((a + b).filter_map(f) == (a + rest).filter_map(f) + seq![x]);
                assert(a.filter_map(f) + rest.filter_map(f) + seq![x] =~= a.filter_map(f) + (
                rest.filter_map(f) + seq![x]));
                assert(b.filter_map(f) == rest.filter_map(f) + seq![x]);
            },
            None => {
                assert((a + b).filter_map(f) == (a + rest).filter_map(f));
                assert(b.filter_map(f) == rest.filter_map(f));
            },
        }
    }
}

/// When no hit stands before position `i` and position `i` is a hit, the hit
/// at `i` opens the filtered sequence.
pub proof fn lemma_first_hit<A, B>(s: Seq<A>, f: spec_fn(A) -> Option<B>, i: int, b: B)
    requires
        0 <= i < s.len(),
        s.take(i).filter_map(f) == Seq::<B>::empty(),
        f(s[i]) == Some(b),
    ensures
        s.filter_map(f).len() > 0,
        s.filter_map(f)[0] == b,
{
    s.lemma_filter_map_take_succ(f, i);
    assert(s.take(i + 1).filter_map(f) =~= seq![b]);
    assert(s =~= s.take(i + 1) + s.skip(i + 1));
    lemma_filter_map_add(s.take(i + 1), s.skip(i + 1), f);
    assert(s.filter_map(f) == s.take(i + 1).filter_map(f) + s.skip(i + 1).filter_map(f));
    assert(s.filter_map(f)[0] == b);
}

/// A position whose element the filter keeps puts that element's image into
/// the filtered sequence.
pub proof fn lemma_filter_map_mem<A, B>(s: Seq<A>, f: spec_fn(A) -> Option<B>, j: int)
    requires
        0 <= j < s.len(),
        f(s[j]) is Some,
    ensures
        s.filter_map(f).contains(f(s[j])->Some_0),
{
    s.lemma_filter_map_take_succ(f, j);
    lemma_filter_map_add(s.take(j + 1), s.skip(j + 1), f);
    assert(s =~= s.take(j + 1) + s.skip(j + 1));
    let b = f(s[j])->Some_0;
    let k = s.take(j).filter_map(f).len() as int;
    assert(s.take(j + 1).filter_map(f)[k] == b);
    assert(s.filter_map(f) == s.take(j + 1).filter_map(f) + s.skip(j + 1).filter_map(f));
    assert(s.filter_map(f)[k] == b);
}

/// The value of the first attribute of `n` named `name`, as [`attr_of`]
/// describes it.
pub fn node_attr<'a>(n: &'a XmlNode, name: &str) -> (r: Option<&'a String>)
    ensures
        match r {
            Some(v) => attr_of(n@, name@) == Some(v@),
            None => attr_of(n@, name@) is None,
        },
{
    let ghost attrs = n@.attrs;
    let ghost f = attr_pick(name@);
    let len = n.attrs.len();
    let mut i: usize = 0;
    proof {
        assert(attrs.take(0).filter_map(f) =~= Seq::<Seq<char>>::empty());
    }
    while i < len
        invariant
            len == n.attrs.len(),
            attrs == n@.attrs,
            f == attr_pick(name@),
            i <= len,
            attrs.len() == len,
            forall|j: int| 0 <= j < len ==> attrs[j] == n.attrs@[j]@,
            attrs.take(i as int).filter_map(f) == Seq::<Seq<char>>::empty(),
        decreases len - i,
    {
        if str_eq(n.attrs[i].name.as_str(), name) {
            proof {
                lemma_first_hit(attrs, f, i as int, attrs[i as int].value);
            }
            return Some(&n.attrs[i].value);
        }
        proof {
            attrs.lemma_filter_map_take_succ(f, i as int);
            assert(attrs.take(i + 1).filter_map(f) =~= Seq::<Seq<char>>::empty());
        }
        i += 1;
    }
    proof {
        assert(attrs.take(len as int) =~= attrs);
    }
    None
}

/// The first node of `nodes` tagged `tag`, as [`first_tagged`] describes it.
pub fn find_first_tagged<'a>(nodes: &'a Vec<XmlNode>, tag: &str) -> (r: Option<&'a XmlNode>)
    ensures
        match r {
            Some(n) => first_tagged(nodes_view(nodes@), tag@) == Some(n@),
            None => first_tagged(nodes_view(nodes@), tag@) is None,
        },
{
    let ghost vs = nodes_view(nodes@);
    let ghost f = tag_pick(tag@);
    let len = nodes.len();
    let mut i: usize = 0;
    proof {
        assert(vs.take(0).filter_map(f) =~= Seq::<XmlNodeView>::empty());
    }
    while i < len
        invariant
            len == nodes.len(),
            vs == nodes_view(nodes@),
            f == tag_pick(tag@),
            i <= len,
            vs.len() == len,
            forall|j: int| 0 <= j < len ==> vs[j] == nodes@[j]@,
            vs.take(i as int).filter_map(f) == Seq::<XmlNodeView>::empty(),
        decreases len - i,
    {
        if str_eq(nodes[i].tag.as_str(), tag) {
            proof {
                lemma_first_hit(vs, f, i as int, vs[i as int]);
            }
            return Some(&nodes[i]);
        }
        proof {
            vs.lemma_filter_map_take_succ(f, i as int);
            assert(vs.take(i + 1).filter_map(f) =~= Seq::<XmlNodeView>::empty());
        }
        i += 1;
    }
    proof {
        assert(vs.take(len as int) =~= vs);
    }
    None
}

} // verus!
