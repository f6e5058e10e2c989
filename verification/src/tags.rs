//! Tag bookkeeping: the values the store's tag queries take and give.

use vstd::prelude::*;

verus! {

/// The request body of a tag creation or rename.
pub struct NewTagRequest {
    pub name: String,
}

/// One tag with the number of books that carry it.
pub struct Tag {
    pub name: String,
    pub book_count: i64,
}

} // verus!
