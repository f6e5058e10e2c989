//! End-to-end behaviour of the extraction pipeline on concrete packages.

use epubapi::catalog::BookLayout;
use epubapi::errors::PipelineError;
use epubapi::opf::index_package;
use epubapi::orchestrator::{classify_layout, extract_spread_images, orchestrate, ContentDoc};
use epubapi::resolver::{container_descriptor_path, resolve_package_path};
use epubapi::scanner::scan_content_images;

const CONTAINER: &str = r#"<?xml version="1.0"?>
<container version="1.0" xmlns="urn:oasis:names:tc:opendocument:xmlns:container">
  <rootfiles>
    <rootfile full-path="OEBPS/content.opf" media-type="application/oebps-package+xml"/>
  </rootfiles>
</container>"#;

const OPF_PRE_PAGINATED: &str = r#"<?xml version="1.0"?>
<package xmlns="http://www.idpf.org/2007/opf" version="3.0">
  <metadata>
    <meta property="rendition:layout">pre-paginated</meta>
  </metadata>
  <manifest>
    <item id="c1" href="ch1.xhtml" media-type="application/xhtml+xml"/>
    <item id="c2" href="ch2.xhtml" media-type="application/xhtml+xml"/>
  </manifest>
  <spine>
    <itemref idref="c1"/>
    <itemref idref="c2"/>
  </spine>
</package>"#;

const OPF_NO_LAYOUT: &str = r#"<?xml version="1.0"?>
<package xmlns="http://www.idpf.org/2007/opf" version="3.0">
  <metadata/>
  <manifest>
    <item id="c1" href="ch1.xhtml" media-type="application/xhtml+xml"/>
  </manifest>
  <spine>
    <itemref idref="c1"/>
  </spine>
</package>"#;

const CH1: &str = r#"<html xmlns="http://www.w3.org/1999/xhtml"><body>
  <img src="img/a.png"/>
  <img src="img/b.png"/>
</body></html>"#;

const CH2: &str = r#"<html xmlns="http://www.w3.org/1999/xhtml"><body>
  <img src="img/c.png"/>
</body></html>"#;

#[test]
fn test_resolver_returns_declared_full_path() {
    assert_eq!(container_descriptor_path(), "META-INF/container.xml");
    let path = resolve_package_path(CONTAINER).unwrap();
    assert_eq!(path, "OEBPS/content.opf");
}

#[test]
fn test_resolver_rejects_unparseable_descriptor() {
    assert_eq!(
        resolve_package_path("<container><rootfiles>").unwrap_err(),
        PipelineError::MalformedContainer
    );
}

#[test]
fn test_resolver_rejects_missing_rootfile() {
    let xml = r#"<container><rootfiles/></container>"#;
    assert_eq!(resolve_package_path(xml).unwrap_err(), PipelineError::MalformedContainer);
}

#[test]
fn test_resolver_rejects_rootfile_without_full_path() {
    let xml = r#"<container><rootfiles><rootfile media-type="x"/></rootfiles></container>"#;
    assert_eq!(resolve_package_path(xml).unwrap_err(), PipelineError::MalformedContainer);
}

#[test]
fn test_indexer_builds_token_and_reading_order() {
    let (token, order) = index_package(OPF_PRE_PAGINATED, "OEBPS/content.opf").unwrap();
    assert_eq!(token, "pre-paginated");
    assert_eq!(order, vec!["OEBPS/ch1.xhtml".to_string(), "OEBPS/ch2.xhtml".to_string()]);
}

#[test]
fn test_indexer_defaults_to_reflowable_token() {
    let (token, order) = index_package(OPF_NO_LAYOUT, "OEBPS/content.opf").unwrap();
    assert_eq!(token, "reflowable");
    assert_eq!(order, vec!["OEBPS/ch1.xhtml".to_string()]);
}

#[test]
fn test_indexer_rejects_unparseable_package() {
    assert_eq!(
        index_package("no xml here", "OEBPS/content.opf").unwrap_err(),
        PipelineError::MissingPackageDocument
    );
}

#[test]
fn test_indexer_rejects_unresolvable_idref() {
    let opf = r#"<package>
      <manifest><item id="c1" href="ch1.xhtml"/></manifest>
      <spine><itemref idref="missing"/></spine>
    </package>"#;
    assert_eq!(
        index_package(opf, "OEBPS/content.opf").unwrap_err(),
        PipelineError::UnresolvableReference
    );
}

#[test]
fn test_indexer_rejects_itemref_without_idref() {
    let opf = r#"<package>
      <manifest><item id="c1" href="ch1.xhtml"/></manifest>
      <spine><itemref/></spine>
    </package>"#;
    assert_eq!(
        index_package(opf, "OEBPS/content.opf").unwrap_err(),
        PipelineError::UnresolvableReference
    );
}

#[test]
fn test_scanner_resolves_images_in_document_order() {
    let images = scan_content_images(CH1, "OEBPS/ch1.xhtml").unwrap();
    assert_eq!(images, vec!["OEBPS/img/a.png".to_string(), "OEBPS/img/b.png".to_string()]);
}

#[test]
fn test_scanner_skips_image_without_source() {
    let xhtml = r#"<html><body><img/><img src="img/a.png"/></body></html>"#;
    let images = scan_content_images(xhtml, "OEBPS/ch1.xhtml").unwrap();
    assert_eq!(images, vec!["OEBPS/img/a.png".to_string()]);
}

#[test]
fn test_scanner_rejects_unparseable_document() {
    assert_eq!(
        scan_content_images("<html><body>", "OEBPS/ch1.xhtml").unwrap_err(),
        PipelineError::ExtractionIOError
    );
}

#[test]
fn test_extraction_keeps_spine_then_document_order() {
    let path = resolve_package_path(CONTAINER).unwrap();
    let (token, order) = index_package(OPF_PRE_PAGINATED, &path).unwrap();
    assert_eq!(order.len(), 2);
    let docs = vec![
        ContentDoc { path: order[0].clone(), text: CH1.to_string() },
        ContentDoc { path: order[1].clone(), text: CH2.to_string() },
    ];
    let (layout, images) = orchestrate(&token, &docs).unwrap();
    assert_eq!(layout, BookLayout::PrePaginated);
    assert_eq!(
        images,
        vec![
            "OEBPS/img/a.png".to_string(),
            "OEBPS/img/b.png".to_string(),
            "OEBPS/img/c.png".to_string(),
        ]
    );
}

#[test]
fn test_extracted_count_is_sum_of_documents() {
    let docs = vec![
        ContentDoc { path: "OEBPS/ch1.xhtml".to_string(), text: CH1.to_string() },
        ContentDoc { path: "OEBPS/ch2.xhtml".to_string(), text: CH2.to_string() },
    ];
    let images = extract_spread_images(&docs).unwrap();
    let first = scan_content_images(CH1, "OEBPS/ch1.xhtml").unwrap();
    let second = scan_content_images(CH2, "OEBPS/ch2.xhtml").unwrap();
    assert_eq!(images.len(), first.len() + second.len());
}

#[test]
fn test_no_layout_meta_classifies_reflowable() {
    let (token, _) = index_package(OPF_NO_LAYOUT, "OEBPS/content.opf").unwrap();
    assert_eq!(token, "reflowable");
    let docs: Vec<ContentDoc> = Vec::new();
    let (layout, images) = orchestrate(&token, &docs).unwrap();
    assert_eq!(layout, BookLayout::Reflowable);
    assert!(images.is_empty());
}

#[test]
fn test_unknown_layout_token_is_fatal_for_book() {
    assert_eq!(classify_layout("layout-3d").unwrap_err(), PipelineError::InvalidLayoutDeclaration);
    let docs: Vec<ContentDoc> = Vec::new();
    assert_eq!(
        orchestrate("layout-3d", &docs).unwrap_err(),
        PipelineError::InvalidLayoutDeclaration
    );
}

#[test]
fn test_orchestrator_is_idempotent() {
    let docs = vec![
        ContentDoc { path: "OEBPS/ch1.xhtml".to_string(), text: CH1.to_string() },
        ContentDoc { path: "OEBPS/ch2.xhtml".to_string(), text: CH2.to_string() },
    ];
    let first = orchestrate("pre-paginated", &docs).unwrap();
    let second = orchestrate("pre-paginated", &docs).unwrap();
    assert_eq!(first.0, second.0);
    assert_eq!(first.1, second.1);
}

#[test]
fn test_failing_document_keeps_book_unclassified() {
    let docs = vec![
        ContentDoc { path: "OEBPS/ch1.xhtml".to_string(), text: CH1.to_string() },
        ContentDoc { path: "OEBPS/ch2.xhtml".to_string(), text: "<broken".to_string() },
    ];
    assert_eq!(orchestrate("pre-paginated", &docs).unwrap_err(), PipelineError::ExtractionIOError);
}

#[test]
fn test_error_messages_name_each_failure() {
    assert_eq!(PipelineError::MalformedContainer.message(), "malformed container descriptor");
    assert_eq!(
        PipelineError::MissingPackageDocument.message(),
        "package document missing or unparseable"
    );
    assert_eq!(
        PipelineError::InvalidLayoutDeclaration.message(),
        "invalid rendition:layout declaration"
    );
    assert_eq!(PipelineError::UnresolvableReference.message(), "unresolvable manifest reference");
    assert_eq!(
        PipelineError::ExtractionIOError.message(),
        "extracted content missing or unparseable"
    );
    assert_eq!(PipelineError::RemoteStoreError.message(), "object store transfer failed");
    assert_eq!(PipelineError::PersistenceError.message(), "catalog write failed");
}
