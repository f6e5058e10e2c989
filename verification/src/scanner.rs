//! The content scanner: ordered image references of one content document.

use vstd::prelude::*;

use crate::errors::PipelineError;
use crate::paths::{joined, parent_of, join_path, parent_dir};
use crate::strutil::str_eq;
use crate::xml::{
    attr_of, node_attr, nodes_view, parse_document, strings_view, xml_tree, XmlNode, XmlNodeView,
};

verus! {

/// Turns an `img` element carrying a `src` into the referenced path resolved
/// against the document's directory `dir`; an `img` without `src` and every
/// other node are dropped.
pub open spec fn img_pick(dir: Seq<char>) -> spec_fn(XmlNodeView) -> Option<Seq<char>> {
    |n: XmlNodeView|
        if n.tag == "img"@ {
            match attr_of(n, "src"@) {
                Some(src) => Some(joined(dir, src)),
                None => None,
            }
        } else {
            None
        }
}

/// The resolved image references of a parsed content document, in document
/// order.
pub open spec fn doc_images(nodes: Seq<XmlNodeView>, dir: Seq<char>) -> Seq<Seq<char>> {
    nodes.filter_map(img_pick(dir))
}

/// What scanning one content document yields: its resolved image references
/// in document order, or `ExtractionIOError` when the text does not parse.
pub open spec fn content_scan(tree: Option<Seq<XmlNodeView>>, doc_path: Seq<char>) -> Result<
    Seq<Seq<char>>,
    PipelineError,
> {
    match tree {
        None => Err(PipelineError::ExtractionIOError),
        Some(nodes) => Ok(doc_images(nodes, parent_of(doc_path))),
    }
}

/// Scans one content document for image references, in document order; each
/// `src` is resolved against the document's own directory, and an image
/// element without a `src` is skipped rather than failing the document.
pub fn scan_content_images(xhtml: &str, doc_path: &str) -> (r: Result<Vec<String>, PipelineError>)
    ensures
        match r {
            Ok(images) => content_scan(xml_tree(xhtml@), doc_path@) == Ok::<
                Seq<Seq<char>>,
                PipelineError,
            >(strings_view(images@)),
            Err(e) => content_scan(xml_tree(xhtml@), doc_path@) == Err::<
                Seq<Seq<char>>,
                PipelineError,
            >(e),
        },
{
    let nodes = match parse_document(xhtml) {
        None => {
            return Err(PipelineError::ExtractionIOError);
        },
        Some(nodes) => nodes,
    };
    let dir = parent_dir(doc_path);
    let ghost vs = nodes_view(nodes@);
    let ghost f = img_pick(dir@);
    let len = nodes.len();
    let mut out: Vec<String> = Vec::new();
    let mut i: usize = 0;
    proof {
        assert(vs.take(0).filter_map(f) =~= Seq::<Seq<char>>::empty());
        assert(strings_view(out@) =~= Seq::<Seq<char>>::empty());
    }
    while i < len
        invariant
            len == nodes.len(),
            vs == nodes_view(nodes@),
            f == img_pick(dir@),
            i <= len,
            vs.len() == len,
            forall|j: int| 0 <= j < len ==> vs[j] == nodes@[j]@,
            strings_view(out@) == vs.take(i as int).filter_map(f),
        decreases len - i,
    {
        let n = &nodes[i];
        if str_eq(n.tag.as_str(), "img") {
            match node_attr(n, "src") {
                Some(src) => {
                    let resolved = join_path(dir, src.as_str());
                    let ghost rv = resolved@;
                    let ghost before = out@;
                    proof {
                        assert(f(vs[i as int]) == Some(rv));
                    }
                    out.push(resolved);
                    proof {
                        vs.lemma_filter_map_take_succ(f, i as int);
                        let prev = vs.take(i as int).filter_map(f);
                        assert(strings_view(before).len() == before.len());
                        assert(before.len() == prev.len());
                        assert(out@.len() == before.len() + 1);
                        assert(out@[before.len() as int]@ == rv);
                        assert(strings_view(out@) =~= prev.push(rv));
                        assert(vs.take(i + 1).filter_map(f) =~= prev.push(rv));
                    }
                },
                None => {
                    proof {
                        assert(f(vs[i as int]) is None);
                        vs.lemma_filter_map_take_succ(f, i as int);
                        assert(vs.take(i + 1).filter_map(f) =~= vs.take(i as int).filter_map(f));
                    }
                },
            }
        } else {
            proof {
                assert(f(vs[i as int]) is None);
                vs.lemma_filter_map_take_succ(f, i as int);
                assert(vs.take(i + 1).filter_map(f) =~= vs.take(i as int).filter_map(f));
            }
        }
        i += 1;
    }
    proof {
        assert(vs.take(len as int) =~= vs);
    }
    Ok(out)
}

} // verus!
