//! The package resolver: locates the package document from the container
//! descriptor.

use vstd::prelude::*;

use crate::errors::PipelineError;
use crate::xml::{attr_of, find_first_tagged, first_tagged, node_attr, parse_document, xml_tree, XmlNodeView};

verus! {

/// The fixed path of the container descriptor inside an extracted archive.
pub fn container_descriptor_path() -> (r: &'static str)
    ensures
        r@ == "META-INF/container.xml"@,
{
    "META-INF/container.xml"
}

/// What resolving a container descriptor yields: the `full-path` attribute of
/// the first `rootfile` element, or `MalformedContainer` when the descriptor
/// does not parse, has no `rootfile` element, or its first `rootfile` element
/// lacks `full-path`.
pub open spec fn container_resolution(tree: Option<Seq<XmlNodeView>>) -> Result<
    Seq<char>,
    PipelineError,
> {
    match tree {
        None => Err(PipelineError::MalformedContainer),
        Some(nodes) => match first_tagged(nodes, "rootfile"@) {
            None => Err(PipelineError::MalformedContainer),
            Some(n) => match attr_of(n, "full-path"@) {
                None => Err(PipelineError::MalformedContainer),
                Some(p) => Ok(p),
            },
        },
    }
}

/// Resolves the package-document path from the container descriptor's text.
///
/// The returned path is exactly the declared `full-path` attribute, taken
/// relative to the archive root.
pub fn resolve_package_path(container_xml: &str) -> (r: Result<String, PipelineError>)
    ensures
        match r {
            Ok(p) => container_resolution(xml_tree(container_xml@)) == Ok::<
                Seq<char>,
                PipelineError,
            >(p@),
            Err(e) => container_resolution(xml_tree(container_xml@)) == Err::<
                Seq<char>,
                PipelineError,
            >(e),
        },
{
    match parse_document(container_xml) {
        None => Err(PipelineError::MalformedContainer),
        Some(nodes) => match find_first_tagged(&nodes, "rootfile") {
            None => Err(PipelineError::MalformedContainer),
            Some(n) => match node_attr(n, "full-path") {
                None => Err(PipelineError::MalformedContainer),
                Some(p) => Ok(p.clone()),
            },
        },
    }
}

} // verus!
