//! The extraction orchestrator: classifies a book's layout and, for a
//! pre-paginated book, drives the content scanner across the reading order.

use vstd::prelude::*;

use crate::catalog::{pending_pick, pending_view, BookIdAndKeyView, BookLayout, BookView};
use crate::errors::PipelineError;
use crate::opf::{layout_token_of, meta_pick};
use crate::scanner::{content_scan, scan_content_images};
use crate::strutil::str_eq;
use crate::xml::{lemma_filter_map_mem, strings_view, xml_tree, XmlNodeView};

verus! {

/// One content document of the reading order, already read from the
/// extracted tree.
pub struct ContentDoc {
    /// The document's path, relative to the archive root.
    pub path: String,
    /// The document's text.
    pub text: String,
}

/// The mathematical value of a [`ContentDoc`].
pub ghost struct ContentDocView {
    pub path: Seq<char>,
    pub text: Seq<char>,
}

impl View for ContentDoc {
    type V = ContentDocView;

    open spec fn view(&self) -> ContentDocView {
        ContentDocView { path: self.path@, text: self.text@ }
    }
}

/// The values of a list of content documents.
pub open spec fn docs_view(v: Seq<ContentDoc>) -> Seq<ContentDocView> {
    v.map_values(|d: ContentDoc| d@)
}

/// What scanning one document of the reading order yields.
pub open spec fn doc_scan(d: ContentDocView) -> Result<Seq<Seq<char>>, PipelineError> {
    content_scan(xml_tree(d.text), d.path)
}

/// Every document of the reading order scans without failure.
pub open spec fn all_docs_scan(docs: Seq<ContentDocView>) -> bool {
    forall|i: int| 0 <= i < docs.len() ==> #[trigger] doc_scan(docs[i]) is Ok
}

/// The image list one document contributes; empty for a failing document.
pub open spec fn doc_scan_images(d: ContentDocView) -> Seq<Seq<char>> {
    match doc_scan(d) {
        Ok(images) => images,
        Err(_) => Seq::empty(),
    }
}

/// The extracted image paths of a whole book: the concatenation of each
/// document's scan, in reading order — spine order first, in-document order
/// within one document. Nothing is reordered, deduplicated or filtered
/// beyond the scanner's own skipping.
pub open spec fn spread_images(docs: Seq<ContentDocView>) -> Seq<Seq<char>> {
    docs.map_values(|d: ContentDocView| doc_scan_images(d)).flatten()
}

/// The classification of a declared layout token.
pub open spec fn classification(token: Seq<char>) -> Result<BookLayout, PipelineError> {
    if token == "reflowable"@ {
        Ok(BookLayout::Reflowable)
    } else if token == "pre-paginated"@ {
        Ok(BookLayout::PrePaginated)
    } else {
        Err(PipelineError::InvalidLayoutDeclaration)
    }
}

/// What orchestrating one book yields: its terminal layout and image list,
/// or the book-scoped failure that keeps it pending.
pub open spec fn orchestration(token: Seq<char>, docs: Seq<ContentDocView>) -> Result<
    (BookLayout, Seq<Seq<char>>),
    PipelineError,
> {
    match classification(token) {
        Err(e) => Err(e),
        Ok(BookLayout::Reflowable) => Ok((BookLayout::Reflowable, Seq::empty())),
        Ok(BookLayout::PrePaginated) => {
            if all_docs_scan(docs) {
                Ok((BookLayout::PrePaginated, spread_images(docs)))
            } else {
                Err(PipelineError::ExtractionIOError)
            }
        },
    }
}

/// Classifies a declared layout token, as [`classification`] describes it:
/// `reflowable` and `pre-paginated` are the only recognized tokens, any
/// other is a fatal declaration error for this book only.
pub fn classify_layout(token: &str) -> (r: Result<BookLayout, PipelineError>)
    ensures
        r == classification(token@),
{
    if str_eq(token, "reflowable") {
        Ok(BookLayout::Reflowable)
    } else if str_eq(token, "pre-paginated") {
        Ok(BookLayout::PrePaginated)
    } else {
        Err(PipelineError::InvalidLayoutDeclaration)
    }
}

/// Scans every document of the reading order, in order, and concatenates the
/// results, as [`spread_images`] describes it; the first failing document
/// fails the book.
pub fn extract_spread_images(docs: &Vec<ContentDoc>) -> (r: Result<Vec<String>, PipelineError>)
    ensures
        match r {
            Ok(images) => all_docs_scan(docs_view(docs@)) && strings_view(images@)
                == spread_images(docs_view(docs@)),
            Err(e) => !all_docs_scan(docs_view(docs@)) && e == PipelineError::ExtractionIOError,
        },
{
    let ghost dv = docs_view(docs@);
    let len = docs.len();
    let mut out: Vec<String> = Vec::new();
    let mut i: usize = 0;
    proof {
        assert(dv.take(0).map_values(|d: ContentDocView| doc_scan_images(d)).flatten() =~= Seq::<
            Seq<char>,
        >::empty());
        assert(strings_view(out@) =~= Seq::<Seq<char>>::empty());
    }
    while i < len
        invariant
            len == docs.len(),
            dv == docs_view(docs@),
            i <= len,
            dv.len() == len,
            forall|j: int| 0 <= j < len ==> dv[j] == docs@[j]@,
            all_docs_scan(dv.take(i as int)),
            strings_view(out@) == spread_images(dv.take(i as int)),
        decreases len - i,
    {
        let d = &docs[i];
        match scan_content_images(d.text.as_str(), d.path.as_str()) {
            Err(_) => {
                proof {
                    assert(doc_scan(dv[i as int]) is Err);
                    assert(!all_docs_scan(dv));
                }
                return Err(PipelineError::ExtractionIOError);
            },
            Ok(mut images) => {
                let ghost gained = strings_view(images@);
                let ghost before = out@;
                proof {
                    assert(doc_scan(dv[i as int]) == Ok::<Seq<Seq<char>>, PipelineError>(gained));
                    assert(doc_scan_images(dv[i as int]) == gained);
                }
                out.append(&mut images);
                proof {
                    let f = |d: ContentDocView| doc_scan_images(d);
                    let prev = dv.take(i as int).map_values(f);
                    let next = dv.take(i + 1).map_values(f);
                    assert(next =~= prev.push(gained));
                    prev.lemma_flatten_push(gained);
                    assert(strings_view(out@) =~= strings_view(before) + gained);
                    assert(all_docs_scan(dv.take(i + 1)));
                }
            },
        }
        i += 1;
    }
    proof {
        assert(dv.take(len as int) =~= dv);
    }
    Ok(out)
}

/// Runs the classification state machine for one book: a reflowable book
/// ends terminal with no images; a pre-paginated book ends terminal with the
/// concatenated scan of its reading order; any other token, or a failing
/// document, keeps the book pending, as [`orchestration`] describes it.
pub fn orchestrate(token: &str, docs: &Vec<ContentDoc>) -> (r: Result<
    (BookLayout, Vec<String>),
    PipelineError,
>)
    ensures
        match r {
            Ok(out) => orchestration(token@, docs_view(docs@)) == Ok::<
                (BookLayout, Seq<Seq<char>>),
                PipelineError,
            >((out.0, strings_view(out.1@))),
            Err(e) => orchestration(token@, docs_view(docs@)) == Err::<
                (BookLayout, Seq<Seq<char>>),
                PipelineError,
            >(e),
        },
{
    match classify_layout(token) {
        Err(e) => Err(e),
        Ok(BookLayout::Reflowable) => {
            let images: Vec<String> = Vec::new();
            proof {
                assert(strings_view(images@) =~= Seq::<Seq<char>>::empty());
            }
            Ok((BookLayout::Reflowable, images))
        },
        Ok(BookLayout::PrePaginated) => {
            match extract_spread_images(docs) {
                Ok(images) => Ok((BookLayout::PrePaginated, images)),
                Err(e) => Err(e),
            }
        },
    }
}

/// The orchestrator is a function of the package alone: two runs against an
/// unmodified extracted package yield identical outcomes — in particular,
/// identical ordered image-path lists.
pub proof fn lemma_orchestration_deterministic(
    token: Seq<char>,
    docs: Seq<ContentDocView>,
    r1: Result<(BookLayout, Seq<Seq<char>>), PipelineError>,
    r2: Result<(BookLayout, Seq<Seq<char>>), PipelineError>,
)
    requires
        r1 == orchestration(token, docs),
        r2 == orchestration(token, docs),
    ensures
        r1 == r2,
{
}

/// A package document without a `rendition:layout` meta element defaults to
/// the `reflowable` token, and its book ends classified `Reflowable` with an
/// empty image list, whatever content documents stand in its reading order.
pub proof fn lemma_missing_layout_defaults_reflowable(
    nodes: Seq<XmlNodeView>,
    docs: Seq<ContentDocView>,
)
    requires
        nodes.filter_map(meta_pick()).len() == 0,
    ensures
        layout_token_of(nodes) == "reflowable"@,
        orchestration(layout_token_of(nodes), docs) == Ok::<
            (BookLayout, Seq<Seq<char>>),
            PipelineError,
        >((BookLayout::Reflowable, Seq::empty())),
{
}

/// A layout token other than `reflowable` and `pre-paginated` reports
/// `InvalidLayoutDeclaration`, the book's catalog entry stays without a
/// layout, and the entry reappears in the next pending-work query.
pub proof fn lemma_invalid_token_keeps_book_pending(
    token: Seq<char>,
    docs: Seq<ContentDocView>,
    c: Seq<BookView>,
    j: int,
)
    requires
        token != "reflowable"@,
        token != "pre-paginated"@,
        0 <= j < c.len(),
        c[j].layout is None,
    ensures
        orchestration(token, docs) == Err::<(BookLayout, Seq<Seq<char>>), PipelineError>(
            PipelineError::InvalidLayoutDeclaration,
        ),
        pending_view(c).contains(BookIdAndKeyView { id: c[j].id, key: c[j].key }),
{
    lemma_filter_map_mem(c, pending_pick(), j);
}

/// The number of images one document contributes to the extraction.
pub open spec fn doc_image_count(d: ContentDocView) -> nat {
    doc_scan_images(d).len()
}

/// The sum of the per-document image counts of a reading order.
pub open spec fn total_image_count(docs: Seq<ContentDocView>) -> nat
    decreases docs.len(),
{
    if docs.len() == 0 {
        0
    } else {
        doc_image_count(docs.first()) + total_image_count(docs.drop_first())
    }
}

/// For a pre-paginated book the extracted image count equals the sum of the
/// per-document resolvable image references across the reading order.
pub proof fn lemma_extracted_image_count(docs: Seq<ContentDocView>)
    ensures
        spread_images(docs).len() == total_image_count(docs),
    decreases docs.len(),
{
    let f = |d: ContentDocView| doc_scan_images(d);
    if docs.len() == 0 {
        assert(docs.map_values(f) =~= Seq::<Seq<Seq<char>>>::empty());
    } else {
        lemma_extracted_image_count(docs.drop_first());
        let mapped = docs.map_values(f);
        assert(mapped.len() != 0);
        assert(mapped.first() == f(docs.first()));
        assert(mapped.drop_first() =~= docs.drop_first().map_values(f));
        assert(mapped.flatten() == mapped.first() + mapped.drop_first().flatten());
    }
}

} // verus!
