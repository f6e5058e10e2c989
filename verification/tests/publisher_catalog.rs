//! The asset publisher's ordered, abort-on-failure run, and the catalog's
//! pending query, atomic commit, and per-book failure isolation.

use epubapi::catalog::{
    commit_classification, pending_books, Book, BookLayout, Direction, Visibility,
};
use epubapi::errors::PipelineError;
use epubapi::publisher::{
    content_type_label, plan_image_upload, should_transcode, AssetPublisher,
};

fn sample_book(id: &str, key: &str, layout: Option<BookLayout>) -> Book {
    Book {
        id: id.to_string(),
        key: key.to_string(),
        owner_id: "owner".to_string(),
        name: "a book".to_string(),
        creator: "someone".to_string(),
        publisher: "someone else".to_string(),
        date: "2024-01-01".to_string(),
        cover_image: "cover.avif".to_string(),
        visibility: Visibility::Public,
        direction: Direction::Ltr,
        created_at: 1_700_000_000,
        layout,
        images: Vec::new(),
    }
}

#[test]
fn test_convertible_formats_go_to_the_codec() {
    assert!(should_transcode("OEBPS/img/a.png"));
    assert!(should_transcode("OEBPS/img/b.jpeg"));
    assert!(should_transcode("OEBPS/img/b.jpg"));
    assert!(!should_transcode("OEBPS/img/c.gif"));
    assert!(!should_transcode("OEBPS/img/noext"));
}

#[test]
fn test_plan_keys_carry_final_format() {
    let plan = plan_image_upload("OEBPS/img/a.png", true);
    assert_eq!(plan.source_path, "OEBPS/img/a.png");
    assert!(plan.key.ends_with(".avif"));
    assert_eq!(plan.key.len(), 36 + ".avif".len());
    assert_eq!(plan.content_type, "image/avif");

    // The codec passed the image through: the key keeps the source format.
    let plan = plan_image_upload("OEBPS/img/a.png", false);
    assert!(plan.key.ends_with(".png"));
    assert_eq!(plan.content_type, "image/png");

    let plan = plan_image_upload("OEBPS/img/c.gif", false);
    assert!(plan.key.ends_with(".gif"));
    assert_eq!(plan.content_type, "application/octet-stream");

    let plan = plan_image_upload("OEBPS/img/noext", false);
    assert_eq!(plan.key.len(), 36);
}

#[test]
fn test_plan_keys_are_fresh() {
    let a = plan_image_upload("OEBPS/img/a.png", true);
    let b = plan_image_upload("OEBPS/img/a.png", true);
    assert_ne!(a.key, b.key);
    assert_ne!(a.key, a.source_path);
}

#[test]
fn test_content_type_labels() {
    assert_eq!(content_type_label("avif"), "image/avif");
    assert_eq!(content_type_label("jpg"), "image/jpeg");
    assert_eq!(content_type_label("jpeg"), "image/jpeg");
    assert_eq!(content_type_label("png"), "image/png");
    assert_eq!(content_type_label("gif"), "application/octet-stream");
}

#[test]
fn test_publisher_returns_keys_in_order() {
    let images = vec!["OEBPS/img/a.png".to_string(), "OEBPS/img/b.gif".to_string()];
    let mut run = AssetPublisher::new(images);
    let mut seen: Vec<String> = Vec::new();
    loop {
        let source = match run.next_source() {
            None => break,
            Some(s) => s.clone(),
        };
        let transcoded = should_transcode(&source);
        let upload = plan_image_upload(&source, transcoded);
        seen.push(upload.key.clone());
        run.record_success(upload.key);
    }
    let keys = run.finish().unwrap();
    assert_eq!(keys, seen);
    assert_eq!(keys.len(), 2);
    assert!(keys[0].ends_with(".avif"));
    assert!(keys[1].ends_with(".gif"));
}

#[test]
fn test_publisher_aborts_after_first_failure() {
    let images = vec!["OEBPS/img/a.png".to_string(), "OEBPS/img/b.png".to_string()];
    let mut run = AssetPublisher::new(images);
    assert!(run.next_source().is_some());
    run.record_failure();
    assert!(run.next_source().is_none());
    assert_eq!(run.finish().unwrap_err(), PipelineError::RemoteStoreError);
}

#[test]
fn test_pending_query_lists_only_unclassified_books() {
    let catalog = vec![
        sample_book("a", "k/a.epub", None),
        sample_book("b", "k/b.epub", Some(BookLayout::Reflowable)),
        sample_book("c", "k/c.epub", None),
    ];
    let pending = pending_books(&catalog);
    assert_eq!(pending.len(), 2);
    assert_eq!(pending[0].id, "a");
    assert_eq!(pending[1].id, "c");
}

#[test]
fn test_commit_sets_layout_and_images_together() {
    let mut catalog = vec![sample_book("a", "k/a.epub", None), sample_book("b", "k/b.epub", None)];
    let images = vec!["x.avif".to_string(), "y.avif".to_string()];
    let found = commit_classification(&mut catalog, "a", BookLayout::PrePaginated, images.clone());
    assert!(found);
    assert_eq!(catalog[0].layout, Some(BookLayout::PrePaginated));
    assert_eq!(catalog[0].images, images);
    assert_eq!(catalog[0].name, "a book");
    assert_eq!(catalog[1].layout, None);
    assert!(catalog[1].images.is_empty());
}

#[test]
fn test_commit_for_unknown_book_changes_nothing() {
    let mut catalog = vec![sample_book("a", "k/a.epub", None)];
    let found = commit_classification(&mut catalog, "zz", BookLayout::Reflowable, Vec::new());
    assert!(!found);
    assert_eq!(catalog[0].layout, None);
}

#[test]
fn test_terminal_books_leave_the_pending_query() {
    let mut catalog = vec![sample_book("a", "k/a.epub", None), sample_book("b", "k/b.epub", None)];
    commit_classification(&mut catalog, "a", BookLayout::Reflowable, Vec::new());
    let pending = pending_books(&catalog);
    assert_eq!(pending.len(), 1);
    assert_eq!(pending[0].id, "b");
}

#[test]
fn test_one_books_failure_does_not_block_another() {
    let mut catalog = vec![sample_book("a", "k/a.epub", None), sample_book("b", "k/b.epub", None)];

    // Book a's publish step fails: its run writes nothing to the catalog.
    let images_a = vec!["a1.avif".to_string()];
    let mut failed_run = AssetPublisher::new(images_a);
    assert!(failed_run.next_source().is_some());
    failed_run.record_failure();
    assert_eq!(failed_run.finish().unwrap_err(), PipelineError::RemoteStoreError);

    // Book b, pending in the same pass, still reaches a terminal state.
    let committed = commit_classification(
        &mut catalog,
        "b",
        BookLayout::PrePaginated,
        vec!["b1.avif".to_string()],
    );
    assert!(committed);
    assert_eq!(catalog[1].layout, Some(BookLayout::PrePaginated));

    // Book a stays pending and reappears in the next pass.
    let pending = pending_books(&catalog);
    assert_eq!(pending.len(), 1);
    assert_eq!(pending[0].id, "a");
}
