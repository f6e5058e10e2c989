//! The package-document indexer: manifest, spine, layout declaration and
//! resolved reading order.

use vstd::prelude::*;

use crate::errors::PipelineError;
use crate::paths::{joined, parent_of, join_path, parent_dir};
use crate::strutil::str_eq;
use crate::xml::{
    attr_of, lemma_filter_map_add, lemma_first_hit, node_attr, nodes_view, parse_document,
    strings_view, xml_tree, XmlNode, XmlNodeView,
};

verus! {

/// One `item` element of the package manifest.
pub struct ManifestEntry {
    /// The id the spine refers to; unique within a package.
    pub id: String,
    /// The part's path, relative to the package document's directory.
    pub href: String,
    /// The declared media type; empty when the element does not declare one.
    pub media_type: String,
}

/// The mathematical value of a [`ManifestEntry`].
pub ghost struct ManifestEntryView {
    pub id: Seq<char>,
    pub href: Seq<char>,
    pub media_type: Seq<char>,
}

impl View for ManifestEntry {
    type V = ManifestEntryView;

    open spec fn view(&self) -> ManifestEntryView {
        ManifestEntryView { id: self.id@, href: self.href@, media_type: self.media_type@ }
    }
}

/// The values of a list of manifest entries.
pub open spec fn entries_view(v: Seq<ManifestEntry>) -> Seq<ManifestEntryView> {
    v.map_values(|e: ManifestEntry| e@)
}

/// The declared media type of an `item`, empty when absent.
pub open spec fn media_type_or_empty(n: XmlNodeView) -> Seq<char> {
    match attr_of(n, "media-type"@) {
        Some(m) => m,
        None => Seq::empty(),
    }
}

/// Turns an `item` element carrying both an `id` and an `href` into a
/// manifest entry, drops every other node.
pub open spec fn item_pick() -> spec_fn(XmlNodeView) -> Option<ManifestEntryView> {
    |n: XmlNodeView|
        if n.tag == "item"@ {
            match (attr_of(n, "id"@), attr_of(n, "href"@)) {
                (Some(id), Some(href)) => Some(
                    ManifestEntryView { id, href, media_type: media_type_or_empty(n) },
                ),
                _ => None,
            }
        } else {
            None
        }
}

/// The manifest: every qualifying `item` element, in document order.
pub open spec fn manifest_of(nodes: Seq<XmlNodeView>) -> Seq<ManifestEntryView> {
    nodes.filter_map(item_pick())
}

/// Keeps an entry whose id is `id`, drops any other entry.
pub open spec fn entry_pick(id: Seq<char>) -> spec_fn(ManifestEntryView) -> Option<
    ManifestEntryView,
> {
    |e: ManifestEntryView| if e.id == id { Some(e) } else { None }
}

/// The first manifest entry with the given id, if any.
pub open spec fn manifest_lookup(m: Seq<ManifestEntryView>, id: Seq<char>) -> Option<
    ManifestEntryView,
> {
    let hits = m.filter_map(entry_pick(id));
    if hits.len() == 0 {
        None
    } else {
        Some(hits[0])
    }
}

/// The `idref` slot of an `itemref` element; `Some(None)` stands for an
/// `itemref` that lacks the attribute.
pub open spec fn idref_pick() -> spec_fn(XmlNodeView) -> Option<Option<Seq<char>>> {
    |n: XmlNodeView|
        if n.tag == "itemref"@ {
            Some(attr_of(n, "idref"@))
        } else {
            None
        }
}

/// The spine: the `idref` slot of every `itemref` element, in document order.
pub open spec fn spine_refs(nodes: Seq<XmlNodeView>) -> Seq<Option<Seq<char>>> {
    nodes.filter_map(idref_pick())
}

/// The href a spine slot resolves to: `None` when the `idref` is missing or
/// names no manifest entry.
pub open spec fn ref_resolution(m: Seq<ManifestEntryView>, r: Option<Seq<char>>) -> Option<
    Seq<char>,
> {
    match r {
        None => None,
        Some(idref) => match manifest_lookup(m, idref) {
            None => None,
            Some(e) => Some(e.href),
        },
    }
}

/// Every spine slot resolves to a manifest entry.
pub open spec fn spine_resolvable(m: Seq<ManifestEntryView>, refs: Seq<Option<Seq<char>>>) -> bool {
    forall|i: int| 0 <= i < refs.len() ==> #[trigger] ref_resolution(m, refs[i]) is Some
}

/// An option's content, empty when absent.
pub open spec fn or_empty(o: Option<Seq<char>>) -> Seq<char> {
    match o {
        Some(s) => s,
        None => Seq::empty(),
    }
}

/// The reading order: each spine slot's href resolved against the package
/// document's directory, in spine order.
pub open spec fn resolved_reading_order(
    m: Seq<ManifestEntryView>,
    refs: Seq<Option<Seq<char>>>,
    dir: Seq<char>,
) -> Seq<Seq<char>> {
    refs.map_values(|r: Option<Seq<char>>| joined(dir, or_empty(ref_resolution(m, r))))
}

/// Keeps a `meta` element declaring `rendition:layout`, drops any other node.
pub open spec fn meta_pick() -> spec_fn(XmlNodeView) -> Option<XmlNodeView> {
    |n: XmlNodeView|
        if n.tag == "meta"@ && attr_of(n, "property"@) == Some("rendition:layout"@) {
            Some(n)
        } else {
            None
        }
}

/// The declared layout token: the text of the first `rendition:layout` meta
/// element, `reflowable` when no such element exists, empty when the element
/// carries no text.
pub open spec fn layout_token_of(nodes: Seq<XmlNodeView>) -> Seq<char> {
    let hits = nodes.filter_map(meta_pick());
    if hits.len() == 0 {
        "reflowable"@
    } else {
        match hits[0].text {
            Some(t) => t,
            None => Seq::empty(),
        }
    }
}

/// What indexing a package document yields: the declared layout token and the
/// resolved reading order.
pub open spec fn package_indexing(
    tree: Option<Seq<XmlNodeView>>,
    package_path: Seq<char>,
) -> Result<(Seq<char>, Seq<Seq<char>>), PipelineError> {
    match tree {
        None => Err(PipelineError::MissingPackageDocument),
        Some(nodes) => {
            let m = manifest_of(nodes);
            let refs = spine_refs(nodes);
            if !spine_resolvable(m, refs) {
                Err(PipelineError::UnresolvableReference)
            } else {
                Ok(
                    (
                        layout_token_of(nodes),
                        resolved_reading_order(m, refs, parent_of(package_path)),
                    ),
                )
            }
        },
    }
}

/// Collects the manifest of a parsed package document, as [`manifest_of`]
/// describes it.
pub fn build_manifest(nodes: &Vec<XmlNode>) -> (r: Vec<ManifestEntry>)
    ensures
        entries_view(r@) == manifest_of(nodes_view(nodes@)),
{
    let ghost vs = nodes_view(nodes@);
    let ghost f = item_pick();
    let len = nodes.len();
    let mut out: Vec<ManifestEntry> = Vec::new();
    let mut i: usize = 0;
    proof {
        assert(vs.take(0).filter_map(f) =~= Seq::<ManifestEntryView>::empty());
        assert(entries_view(out@) =~= Seq::<ManifestEntryView>::empty());
    }
    while i < len
        invariant
            len == nodes.len(),
            vs == nodes_view(nodes@),
            f == item_pick(),
            i <= len,
            vs.len() == len,
            forall|j: int| 0 <= j < len ==> vs[j] == nodes@[j]@,
            entries_view(out@) == vs.take(i as int).filter_map(f),
        decreases len - i,
    {
        let n = &nodes[i];
        if str_eq(n.tag.as_str(), "item") {
            let id = node_attr(n, "id");
            let href = node_attr(n, "href");
            match (id, href) {
                (Some(id), Some(href)) => {
                    let media_type = match node_attr(n, "media-type") {
                        Some(m) => m.clone(),
                        None => String::new(),
                    };
                    let entry = ManifestEntry { id: id.clone(), href: href.clone(), media_type };
                    proof {
                        assert(f(vs[i as int]) == Some(entry@));
                    }
                    out.push(entry);
                },
                _ => {
                    proof {
                        assert(f(vs[i as int]) is None);
                    }
                },
            }
        }
        proof {
            vs.lemma_filter_map_take_succ(f, i as int);
            if f(vs[i as int]) is Some {
                assert(entries_view(out@) =~= vs.take(i as int).filter_map(f).push(
                    f(vs[i as int])->Some_0,
                ));
                assert(vs.take(i + 1).filter_map(f) =~= vs.take(i as int).filter_map(f).push(
                    f(vs[i as int])->Some_0,
                ));
            } else {
                assert(vs.take(i + 1).filter_map(f) =~= vs.take(i as int).filter_map(f));
            }
        }
        i += 1;
    }
    proof {
        assert(vs.take(len as int) =~= vs);
    }
    out
}

/// Finds the first manifest entry with the given id, as [`manifest_lookup`]
/// describes it.
pub fn lookup_manifest<'a>(manifest: &'a Vec<ManifestEntry>, id: &str) -> (r: Option<
    &'a ManifestEntry,
>)
    ensures
        match r {
            Some(e) => manifest_lookup(entries_view(manifest@), id@) == Some(e@),
            None => manifest_lookup(entries_view(manifest@), id@) is None,
        },
{
    let ghost ms = entries_view(manifest@);
    let ghost f = entry_pick(id@);
    let len = manifest.len();
    let mut i: usize = 0;
    proof {
        assert(ms.take(0).filter_map(f) =~= Seq::<ManifestEntryView>::empty());
    }
    while i < len
        invariant
            len == manifest.len(),
            ms == entries_view(manifest@),
            f == entry_pick(id@),
            i <= len,
            ms.len() == len,
            forall|j: int| 0 <= j < len ==> ms[j] == manifest@[j]@,
            ms.take(i as int).filter_map(f) == Seq::<ManifestEntryView>::empty(),
        decreases len - i,
    {
        if str_eq(manifest[i].id.as_str(), id) {
            proof {
                lemma_first_hit(ms, f, i as int, ms[i as int]);
            }
            return Some(&manifest[i]);
        }
        proof {
            ms.lemma_filter_map_take_succ(f, i as int);
            assert(ms.take(i + 1).filter_map(f) =~= Seq::<ManifestEntryView>::empty());
        }
        i += 1;
    }
    proof {
        assert(ms.take(len as int) =~= ms);
    }
    None
}

/// Reads the declared layout token of a parsed package document, as
/// [`layout_token_of`] describes it.
pub fn layout_token(nodes: &Vec<XmlNode>) -> (r: String)
    ensures
        r@ == layout_token_of(nodes_view(nodes@)),
{
    let ghost vs = nodes_view(nodes@);
    let ghost f = meta_pick();
    let len = nodes.len();
    let mut i: usize = 0;
    proof {
        assert(vs.take(0).filter_map(f) =~= Seq::<XmlNodeView>::empty());
    }
    while i < len
        invariant
            len == nodes.len(),
            vs == nodes_view(nodes@),
            f == meta_pick(),
            i <= len,
            vs.len() == len,
            forall|j: int| 0 <= j < len ==> vs[j] == nodes@[j]@,
            vs.take(i as int).filter_map(f) == Seq::<XmlNodeView>::empty(),
        decreases len - i,
    {
        let n = &nodes[i];
        let mut is_layout_meta = false;
        if str_eq(n.tag.as_str(), "meta") {
            match node_attr(n, "property") {
                Some(p) => {
                    if str_eq(p.as_str(), "rendition:layout") {
                        is_layout_meta = true;
                    }
                },
                None => {},
            }
        }
        if is_layout_meta {
            proof {
                assert(f(vs[i as int]) == Some(vs[i as int]));
                lemma_first_hit(vs, f, i as int, vs[i as int]);
            }
            return match &n.text {
                Some(t) => t.clone(),
                None => String::new(),
            };
        }
        proof {
            assert(f(vs[i as int]) is None);
            vs.lemma_filter_map_take_succ(f, i as int);
            assert(vs.take(i + 1).filter_map(f) =~= Seq::<XmlNodeView>::empty());
        }
        i += 1;
    }
    proof {
        assert(vs.take(len as int) =~= vs);
    }
    let r = "reflowable".to_owned();
    r
}

/// Resolves the spine of a parsed package document against its manifest, as
/// the reading-order clauses of [`package_indexing`] describe it.
pub fn resolve_spine(
    nodes: &Vec<XmlNode>,
    manifest: &Vec<ManifestEntry>,
    package_dir: &str,
) -> (r: Result<Vec<String>, PipelineError>)
    ensures
        ({
            let m = entries_view(manifest@);
            let refs = spine_refs(nodes_view(nodes@));
            match r {
                Ok(order) => spine_resolvable(m, refs) && strings_view(order@)
                    == resolved_reading_order(m, refs, package_dir@),
                Err(e) => !spine_resolvable(m, refs) && e == PipelineError::UnresolvableReference,
            }
        }),
{
    let ghost vs = nodes_view(nodes@);
    let ghost m = entries_view(manifest@);
    let ghost f = idref_pick();
    let len = nodes.len();
    let mut out: Vec<String> = Vec::new();
    let mut i: usize = 0;
    proof {
        assert(vs.take(0).filter_map(f) =~= Seq::<Option<Seq<char>>>::empty());
        assert(strings_view(out@) =~= Seq::<Seq<char>>::empty());
        assert(resolved_reading_order(m, vs.take(0).filter_map(f), package_dir@) =~= Seq::<
            Seq<char>,
        >::empty());
    }
    while i < len
        invariant
            len == nodes.len(),
            vs == nodes_view(nodes@),
            m == entries_view(manifest@),
            f == idref_pick(),
            i <= len,
            vs.len() == len,
            forall|j: int| 0 <= j < len ==> vs[j] == nodes@[j]@,
            spine_resolvable(m, vs.take(i as int).filter_map(f)),
            strings_view(out@) == resolved_reading_order(
                m,
                vs.take(i as int).filter_map(f),
                package_dir@,
            ),
        decreases len - i,
    {
        let n = &nodes[i];
        if str_eq(n.tag.as_str(), "itemref") {
            let ghost slot = attr_of(vs[i as int], "idref"@);
            proof {
                assert(f(vs[i as int]) == Some(slot));
            }
            let href = match node_attr(n, "idref") {
                None => None,
                Some(idref) => match lookup_manifest(manifest, idref.as_str()) {
                    None => None,
                    Some(e) => Some(&e.href),
                },
            };
            match href {
                None => {
                    proof {
                        assert(ref_resolution(m, slot) is None);
                        vs.lemma_filter_map_take_succ(f, i as int);
                        lemma_filter_map_add(vs.take(i + 1), vs.skip(i + 1), f);
                        assert(vs =~= vs.take(i + 1) + vs.skip(i + 1));
                        let refs = spine_refs(vs);
                        assert(refs == vs.take(i + 1).filter_map(f) + vs.skip(i + 1).filter_map(f));
                        let k = vs.take(i as int).filter_map(f).len() as int;
                        assert(vs.take(i + 1).filter_map(f) =~= vs.take(i as int).filter_map(
                            f,
                        ).push(slot));
                        assert(refs[k] == slot);
                        assert(!spine_resolvable(m, refs));
                    }
                    return Err(PipelineError::UnresolvableReference);
                },
                Some(href) => {
                    let resolved = join_path(package_dir, href.as_str());
                    let ghost rv = resolved@;
                    let ghost before = out@;
                    proof {
                        assert(rv == joined(package_dir@, or_empty(ref_resolution(m, slot))));
                    }
                    out.push(resolved);
                    proof {
                        vs.lemma_filter_map_take_succ(f, i as int);
                        let prev = vs.take(i as int).filter_map(f);
                        let next = prev.push(slot);
                        assert(strings_view(before) == resolved_reading_order(
                            m,
                            prev,
                            package_dir@,
                        ));
                        assert(strings_view(before).len() == before.len());
                        assert(resolved_reading_order(m, prev, package_dir@).len() == prev.len());
                        assert(before.len() == prev.len());
                        assert(out@.len() == before.len() + 1);
                        assert(forall|k: int| 0 <= k < before.len() ==> out@[k] == before[k]);
                        assert(out@[before.len() as int]@ == rv);
                        assert(vs.take(i + 1).filter_map(f) =~= next);
                        assert forall|k: int| 0 <= k < next.len() implies #[trigger] ref_resolution(
                            m,
                            next[k],
                        ) is Some by {
                            if k < prev.len() {
                                assert(next[k] == prev[k]);
                                assert(ref_resolution(m, prev[k]) is Some);
                            } else {
                                assert(next[k] == slot);
                            }
                        }
                        assert forall|k: int| 0 <= k < next.len() implies strings_view(out@)[k]
                            == joined(package_dir@, or_empty(ref_resolution(m, next[k]))) by {
                            if k < prev.len() {
                                assert(out@[k] == before[k]);
                                assert(strings_view(before)[k] == resolved_reading_order(
                                    m,
                                    prev,
                                    package_dir@,
                                )[k]);
                                assert(resolved_reading_order(m, prev, package_dir@)[k] == joined(
                                    package_dir@,
                                    or_empty(ref_resolution(m, prev[k])),
                                ));
                                assert(next[k] == prev[k]);
                            } else {
                                assert(out@[k]@ == rv);
                                assert(next[k] == slot);
                            }
                        }
                        assert(strings_view(out@) =~= resolved_reading_order(
                            m,
                            next,
                            package_dir@,
                        ));
                    }
                },
            }
        } else {
            proof {
                assert(f(vs[i as int]) is None);
                vs.lemma_filter_map_take_succ(f, i as int);
                assert(vs.take(i + 1).filter_map(f) =~= vs.take(i as int).filter_map(f));
            }
        }
        i += 1;
    }
    proof {
        assert(vs.take(len as int) =~= vs);
    }
    Ok(out)
}

/// Indexes a package document: parses it, builds the manifest and spine, and
/// resolves the reading order, as [`package_indexing`] describes it.
pub fn index_package(opf_xml: &str, package_path: &str) -> (r: Result<
    (String, Vec<String>),
    PipelineError,
>)
    ensures
        match r {
            Ok(out) => package_indexing(xml_tree(opf_xml@), package_path@) == Ok::<
                (Seq<char>, Seq<Seq<char>>),
                PipelineError,
            >((out.0@, strings_view(out.1@))),
            Err(e) => package_indexing(xml_tree(opf_xml@), package_path@) == Err::<
                (Seq<char>, Seq<Seq<char>>),
                PipelineError,
            >(e),
        },
{
    let nodes = match parse_document(opf_xml) {
        None => {
            return Err(PipelineError::MissingPackageDocument);
        },
        Some(nodes) => nodes,
    };
    let manifest = build_manifest(&nodes);
    let dir = parent_dir(package_path);
    let order = match resolve_spine(&nodes, &manifest, dir) {
        Err(e) => {
            return Err(e);
        },
        Ok(order) => order,
    };
    let token = layout_token(&nodes);
    Ok((token, order))
}

} // verus!
