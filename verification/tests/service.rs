//! The service rules around the pipeline: invitations, account validation,
//! book visibility, search parameters, and path arithmetic.

use epubapi::books::{
    book_details_response, book_summary, can_modify_book, epub_object_key, is_available,
    keyword_pattern, search_offset, tag_filter, BookQuery,
};
use epubapi::catalog::{Book, BookLayout, Direction, Visibility};
use epubapi::invitation::{
    check_invitation_state, InvitationState, InvitationUpdate, USING_HOLD_SECONDS,
};
use epubapi::paths::{extension_of, join_path, parent_dir};
use epubapi::tags::Tag;
use epubapi::users::{
    is_admin_role, valid_password, valid_user_id, validate_new_user, varify_password,
    NewUserRejection, UserRole,
};

fn visible_book(owner: &str, visibility: Visibility) -> Book {
    Book {
        id: "book".to_string(),
        key: "k/book.epub".to_string(),
        owner_id: owner.to_string(),
        name: "a book".to_string(),
        creator: "someone".to_string(),
        publisher: "someone else".to_string(),
        date: "2024-01-01".to_string(),
        cover_image: "cover.avif".to_string(),
        visibility,
        direction: Direction::Rtl,
        created_at: 1_700_000_000,
        layout: Some(BookLayout::Reflowable),
        images: Vec::new(),
    }
}

#[test]
fn test_path_arithmetic() {
    assert_eq!(parent_dir("OEBPS/ch1.xhtml"), "OEBPS");
    assert_eq!(parent_dir("content.opf"), "");
    assert_eq!(parent_dir("a/b/c.xhtml"), "a/b");
    assert_eq!(join_path("OEBPS", "img/a.png"), "OEBPS/img/a.png");
    assert_eq!(join_path("", "content.opf"), "content.opf");
    assert_eq!(extension_of("OEBPS/img/a.png"), "png");
    assert_eq!(extension_of("OEBPS/img/archive.tar.gz"), "gz");
    assert_eq!(extension_of("OEBPS/img/noext"), "");
    assert_eq!(extension_of("dir.v2/noext"), "");
}

#[test]
fn test_unused_code_is_held_from_now() {
    let (update, response) = check_invitation_state(InvitationState::Unused, None, 1_000);
    assert_eq!(update, InvitationUpdate::MarkUsing(1_000));
    assert_eq!(response.state, "unused");
}

#[test]
fn test_fresh_hold_answers_using() {
    let started = 1_000;
    let now = started + USING_HOLD_SECONDS;
    let (update, response) = check_invitation_state(InvitationState::Using, Some(started), now);
    assert_eq!(update, InvitationUpdate::NoChange);
    assert_eq!(response.state, "using");
}

#[test]
fn test_lapsed_hold_is_handed_back() {
    let started = 1_000;
    let now = started + USING_HOLD_SECONDS + 1;
    let (update, response) = check_invitation_state(InvitationState::Using, Some(started), now);
    assert_eq!(update, InvitationUpdate::MarkUnused);
    assert_eq!(response.state, "unused");

    let (update, response) = check_invitation_state(InvitationState::Using, None, 5);
    assert_eq!(update, InvitationUpdate::MarkUnused);
    assert_eq!(response.state, "unused");
}

#[test]
fn test_used_code_stays_used() {
    let (update, response) = check_invitation_state(InvitationState::Used, Some(1), 2);
    assert_eq!(update, InvitationUpdate::NoChange);
    assert_eq!(response.state, "used");
    assert_eq!(InvitationState::Used.label(), "used");
}

#[test]
fn test_account_id_rules() {
    assert!(valid_user_id("ab"));
    assert!(valid_user_id("User_1-2"));
    assert!(!valid_user_id("a"));
    assert!(!valid_user_id("has space"));
    assert!(!valid_user_id(&"x".repeat(41)));
    assert!(valid_user_id(&"x".repeat(40)));
}

#[test]
fn test_password_rules() {
    assert!(valid_password("12345678"));
    assert!(!valid_password("1234567"));
}

#[test]
fn test_new_user_validation_verdicts() {
    assert_eq!(
        validate_new_user(None, "fine_id", "long enough"),
        Err(NewUserRejection::UnknownInvitation)
    );
    assert_eq!(
        validate_new_user(Some(InvitationState::Used), "fine_id", "long enough"),
        Err(NewUserRejection::UsedInvitation)
    );
    assert_eq!(
        validate_new_user(Some(InvitationState::Unused), "!", "long enough"),
        Err(NewUserRejection::InvalidId)
    );
    assert_eq!(
        validate_new_user(Some(InvitationState::Unused), "fine_id", "short"),
        Err(NewUserRejection::PasswordTooShort)
    );
    assert_eq!(validate_new_user(Some(InvitationState::Unused), "fine_id", "long enough"), Ok(()));
}

#[test]
fn test_sign_in_verdicts() {
    let stored = "Test1234".to_string();
    assert_eq!(varify_password(None, "Test1234").unwrap_err(), "invalid id");
    assert_eq!(varify_password(Some(&stored), "wrong").unwrap_err(), "invalid password");
    assert!(varify_password(Some(&stored), "Test1234").is_ok());
}

#[test]
fn test_admin_role() {
    assert!(is_admin_role(&UserRole::Admin));
    assert!(!is_admin_role(&UserRole::User));
}

#[test]
fn test_book_visibility_rules() {
    let public_book = visible_book("owner", Visibility::Public);
    let private_book = visible_book("owner", Visibility::Private);
    assert!(is_available(&public_book, "someone_else", false));
    assert!(!is_available(&private_book, "someone_else", false));
    assert!(is_available(&private_book, "owner", false));
    assert!(is_available(&private_book, "someone_else", true));
}

#[test]
fn test_book_modification_rules() {
    assert!(can_modify_book("owner", "owner", false));
    assert!(!can_modify_book("owner", "someone_else", false));
    assert!(can_modify_book("owner", "someone_else", true));
}

#[test]
fn test_search_parameters() {
    let q = BookQuery { page: Some(2), keyword: Some("user".to_string()), tag: None };
    assert_eq!(search_offset(&q), 24);
    assert_eq!(keyword_pattern(&q), "%user%");
    assert_eq!(tag_filter(&q), "");

    let q = BookQuery { page: None, keyword: None, tag: Some("test_tag".to_string()) };
    assert_eq!(search_offset(&q), 0);
    assert_eq!(keyword_pattern(&q), "%%");
    assert_eq!(tag_filter(&q), "test_tag");
}

#[test]
fn test_book_summary_projects_entry() {
    let book = visible_book("owner", Visibility::Public);
    let row = book_summary(&book);
    assert_eq!(row.id, "book");
    assert_eq!(row.owner_id, "owner");
    assert_eq!(row.name, "a book");
    assert_eq!(row.visibility, Visibility::Public);
    assert_eq!(row.created_at, 1_700_000_000);
    assert!(row.tags.is_empty());
}

#[test]
fn test_book_details_response_assembles_entry() {
    let book = visible_book("owner", Visibility::Private);
    let details = book_details_response(
        &book,
        vec!["test_tag".to_string()],
        "https://store/epub".to_string(),
        vec!["https://store/img1".to_string()],
    );
    assert_eq!(details.id, "book");
    assert_eq!(details.direction, Direction::Rtl);
    assert_eq!(details.visibility, Visibility::Private);
    assert_eq!(details.tags, vec!["test_tag".to_string()]);
    assert_eq!(details.epub_url, "https://store/epub");
    assert_eq!(details.layout, Some(BookLayout::Reflowable));
    assert_eq!(details.images, vec!["https://store/img1".to_string()]);
}

#[test]
fn test_epub_object_key_shape() {
    assert_eq!(epub_object_key("user_id", "stem"), "user_id/stem.epub");
}

#[test]
fn test_tag_carries_name_and_count() {
    let tag = Tag { name: "test_tag".to_string(), book_count: 2 };
    assert_eq!(tag.name, "test_tag");
    assert_eq!(tag.book_count, 2);
}
