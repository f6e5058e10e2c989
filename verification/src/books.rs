//! Book service rules: visibility, modification rights, and the pure parts
//! of the catalog queries and uploads.

use vstd::prelude::*;

use crate::catalog::{Book, BookLayout, Direction, Visibility};
use crate::strutil::{concat2, concat3, str_eq};

verus! {

/// Books shown per search page.
pub const BOOKS_PER_PAGE: i64 = 24;

/// The query parameters of a book search.
pub struct BookQuery {
    pub page: Option<u32>,
    pub keyword: Option<String>,
    pub tag: Option<String>,
}

/// One row of a book search's answer.
pub struct GetBooksResponse {
    pub id: String,
    pub owner_id: String,
    pub name: String,
    pub creator: String,
    pub publisher: String,
    pub date: String,
    pub cover_image: String,
    pub visibility: Visibility,
    /// Seconds since the epoch of the entry's creation.
    pub created_at: i64,
    pub tags: Vec<String>,
}

/// The answer of a book-details lookup.
pub struct GetBookDetailsResponse {
    pub id: String,
    pub owner_id: String,
    pub name: String,
    pub creator: String,
    pub publisher: String,
    pub date: String,
    pub cover_image: String,
    pub visibility: Visibility,
    pub direction: Direction,
    /// Seconds since the epoch of the entry's creation.
    pub created_at: i64,
    pub tags: Vec<String>,
    pub epub_url: String,
    pub layout: Option<BookLayout>,
    pub images: Vec<String>,
}

/// The request body for adding a tag to a book.
pub struct AddTagRequest {
    pub tag_name: String,
}

/// The request body for removing a tag from a book.
pub struct DeleteTagRequest {
    pub tag_name: String,
}

/// The request body for changing a book's visibility.
pub struct UpdateBookRequest {
    pub visibility: Visibility,
}

/// The request body for deleting a book.
pub struct DeleteBookRequest {
    pub key: String,
}

/// A caller may read a book when they administrate, own it, or it is
/// public; `caller_is_admin` is what the account service answered for the
/// caller.
pub fn is_available(book: &Book, user_id: &str, caller_is_admin: bool) -> (r: bool)
    ensures
        r == (caller_is_admin || book.owner_id@ == user_id@ || book.visibility
            == Visibility::Public),
{
    if caller_is_admin {
        return true;
    }
    str_eq(book.owner_id.as_str(), user_id) || book.visibility == Visibility::Public
}

/// A caller may modify a book when they own it or administrate.
pub fn can_modify_book(owner_id: &str, user_id: &str, caller_is_admin: bool) -> (r: bool)
    ensures
        r == (owner_id@ == user_id@ || caller_is_admin),
{
    str_eq(owner_id, user_id) || caller_is_admin
}

/// The page a search asks for; an absent page means the first.
pub open spec fn page_number(q: &BookQuery) -> int {
    match q.page {
        Some(p) => p as int,
        None => 1,
    }
}

/// The row offset of a search page.
pub fn search_offset(query: &BookQuery) -> (r: i64)
    requires
        query.page matches Some(p) ==> p >= 1,
    ensures
        r == (page_number(query) - 1) * (BOOKS_PER_PAGE as int),
{
    let page: i64 = match query.page {
        Some(p) => p as i64,
        None => 1,
    };
    (page - 1) * BOOKS_PER_PAGE
}

/// The search pattern a keyword becomes: the keyword between wildcards, the
/// all-matching pattern when absent.
pub fn keyword_pattern(query: &BookQuery) -> (r: String)
    ensures
        match query.keyword {
            Some(k) => r@ == "%"@ + k@ + "%"@,
            None => r@ == "%%"@,
        },
{
    match &query.keyword {
        Some(k) => concat3("%", k.as_str(), "%"),
        None => {
            let r = "%%".to_owned();
            r
        },
    }
}

/// The tag filter of a search: the tag itself, empty when absent.
pub fn tag_filter(query: &BookQuery) -> (r: String)
    ensures
        match query.tag {
            Some(t) => r@ == t@,
            None => r@.len() == 0,
        },
{
    match &query.tag {
        Some(t) => t.clone(),
        None => String::new(),
    }
}

/// The object key a newly submitted book is stored under: the owner's id as
/// the folder, a fresh stem, and the container extension.
pub fn epub_object_key(user_id: &str, stem: &str) -> (r: String)
    ensures
        r@ == user_id@ + "/"@ + stem@ + ".epub"@,
{
    let prefix = concat3(user_id, "/", stem);
    concat2(prefix.as_str(), ".epub")
}

/// The details answer for one catalog entry, assembled from the entry, its
/// tags, and the store's signed links for the container and each published
/// image.
pub fn book_details_response(
    book: &Book,
    tags: Vec<String>,
    epub_url: String,
    image_urls: Vec<String>,
) -> (r: GetBookDetailsResponse)
    ensures
        r.id@ == book.id@,
        r.owner_id@ == book.owner_id@,
        r.name@ == book.name@,
        r.creator@ == book.creator@,
        r.publisher@ == book.publisher@,
        r.date@ == book.date@,
        r.cover_image@ == book.cover_image@,
        r.visibility == book.visibility,
        r.direction == book.direction,
        r.created_at == book.created_at,
        r.tags == tags,
        r.epub_url == epub_url,
        r.layout == book.layout,
        r.images == image_urls,
{
    GetBookDetailsResponse {
        id: book.id.clone(),
        owner_id: book.owner_id.clone(),
        name: book.name.clone(),
        creator: book.creator.clone(),
        publisher: book.publisher.clone(),
        date: book.date.clone(),
        cover_image: book.cover_image.clone(),
        visibility: book.visibility,
        direction: book.direction,
        created_at: book.created_at,
        tags,
        epub_url,
        layout: book.layout,
        images: image_urls,
    }
}

/// A search row for one catalog entry; the row carries no tags, the tag
/// query stands apart.
pub fn book_summary(book: &Book) -> (r: GetBooksResponse)
    ensures
        r.id@ == book.id@,
        r.owner_id@ == book.owner_id@,
        r.name@ == book.name@,
        r.creator@ == book.creator@,
        r.publisher@ == book.publisher@,
        r.date@ == book.date@,
        r.cover_image@ == book.cover_image@,
        r.visibility == book.visibility,
        r.created_at == book.created_at,
        r.tags@.len() == 0,
{
    GetBooksResponse {
        id: book.id.clone(),
        owner_id: book.owner_id.clone(),
        name: book.name.clone(),
        creator: book.creator.clone(),
        publisher: book.publisher.clone(),
        date: book.date.clone(),
        cover_image: book.cover_image.clone(),
        visibility: book.visibility,
        created_at: book.created_at,
        tags: Vec::new(),
    }
}

} // verus!
