//! The catalog model: book entries, the pending-work query, and the atomic
//! terminal classification write.
//!
//! The persisted catalog is modelled as a list of entries; the store itself
//! performs the reads and writes, against the contracts stated here.

use vstd::prelude::*;

use crate::strutil::str_eq;
use crate::xml::strings_view;

verus! {

/// Who may see a book.
#[derive(Clone, Copy, Debug, PartialEq, Eq, Structural)]
pub enum Visibility {
    Public,
    Private,
}

/// The book's reading direction.
#[derive(Clone, Copy, Debug, PartialEq, Eq, Structural)]
pub enum Direction {
    Ltr,
    Rtl,
}

/// The two recognized layout modes; a book without one is still pending.
#[derive(Clone, Copy, Debug, PartialEq, Eq, Structural)]
pub enum BookLayout {
    Reflowable,
    PrePaginated,
}

/// One catalog entry.
pub struct Book {
    pub id: String,
    pub key: String,
    pub owner_id: String,
    pub name: String,
    pub creator: String,
    pub publisher: String,
    pub date: String,
    pub cover_image: String,
    pub visibility: Visibility,
    pub direction: Direction,
    /// Seconds since the epoch of the entry's creation.
    pub created_at: i64,
    /// `None` until the pipeline classifies the book, then terminal.
    pub layout: Option<BookLayout>,
    /// Published asset keys, in extraction order; empty unless pre-paginated.
    pub images: Vec<String>,
}

/// The mathematical value of a [`Book`].
#[verifier::ext_equal]
pub ghost struct BookView {
    pub id: Seq<char>,
    pub key: Seq<char>,
    pub owner_id: Seq<char>,
    pub name: Seq<char>,
    pub creator: Seq<char>,
    pub publisher: Seq<char>,
    pub date: Seq<char>,
    pub cover_image: Seq<char>,
    pub visibility: Visibility,
    pub direction: Direction,
    pub created_at: i64,
    pub layout: Option<BookLayout>,
    pub images: Seq<Seq<char>>,
}

impl View for Book {
    type V = BookView;

    open spec fn view(&self) -> BookView {
        BookView {
            id: self.id@,
            key: self.key@,
            owner_id: self.owner_id@,
            name: self.name@,
            creator: self.creator@,
            publisher: self.publisher@,
            date: self.date@,
            cover_image: self.cover_image@,
            visibility: self.visibility,
            direction: self.direction,
            created_at: self.created_at,
            layout: self.layout,
            images: strings_view(self.images@),
        }
    }
}

/// The values of a list of books.
pub open spec fn books_view(v: Seq<Book>) -> Seq<BookView> {
    v.map_values(|b: Book| b@)
}

/// The identity and source-archive key of one pending book.
pub struct BookIdAndKey {
    pub id: String,
    pub key: String,
}

/// The mathematical value of a [`BookIdAndKey`].
pub ghost struct BookIdAndKeyView {
    pub id: Seq<char>,
    pub key: Seq<char>,
}

impl View for BookIdAndKey {
    type V = BookIdAndKeyView;

    open spec fn view(&self) -> BookIdAndKeyView {
        BookIdAndKeyView { id: self.id@, key: self.key@ }
    }
}

/// The values of a list of pending entries.
pub open spec fn idkeys_view(v: Seq<BookIdAndKey>) -> Seq<BookIdAndKeyView> {
    v.map_values(|e: BookIdAndKey| e@)
}

/// Keeps a book that still lacks a layout, drops a classified one.
pub open spec fn pending_pick() -> spec_fn(BookView) -> Option<BookIdAndKeyView> {
    |b: BookView|
        if b.layout is None {
            Some(BookIdAndKeyView { id: b.id, key: b.key })
        } else {
            None
        }
}

/// The pending-work query: id and key of every entry without a layout, in
/// catalog order.
pub open spec fn pending_view(c: Seq<BookView>) -> Seq<BookIdAndKeyView> {
    c.filter_map(pending_pick())
}

/// Some entry of the catalog has this id.
pub open spec fn has_book(c: Seq<BookView>, id: Seq<char>) -> bool {
    exists|j: int| 0 <= j < c.len() && #[trigger] c[j].id == id
}

/// The entry `b` with its terminal classification set; every other field is
/// kept.
pub open spec fn classified_entry(
    b: BookView,
    layout: BookLayout,
    images: Seq<Seq<char>>,
) -> BookView {
    BookView { layout: Some(layout), images, ..b }
}

/// The catalog after the terminal write for the first entry with the given
/// id; the catalog unchanged when no entry has it.
pub open spec fn commit_to(
    c: Seq<BookView>,
    id: Seq<char>,
    layout: BookLayout,
    images: Seq<Seq<char>>,
) -> Seq<BookView>
    decreases c.len(),
{
    if c.len() == 0 {
        c
    } else if c[0].id == id {
        seq![classified_entry(c[0], layout, images)] + c.drop_first()
    } else {
        seq![c[0]] + commit_to(c.drop_first(), id, layout, images)
    }
}

/// When the first entry with the id stands at position `j`, the commit is a
/// single positional update.
pub proof fn lemma_commit_at(
    c: Seq<BookView>,
    id: Seq<char>,
    layout: BookLayout,
    images: Seq<Seq<char>>,
    j: int,
)
    requires
        0 <= j < c.len(),
        c[j].id == id,
        forall|k: int| 0 <= k < j ==> c[k].id != id,
    ensures
        commit_to(c, id, layout, images) == c.update(j, classified_entry(c[j], layout, images)),
    decreases c.len(),
{
    if j == 0 {
        assert(seq![classified_entry(c[0], layout, images)] + c.drop_first() =~= c.update(
            0,
            classified_entry(c[0], layout, images),
        ));
    } else {
        assert(c[0].id != id);
        let rest = c.drop_first();
        assert(forall|k: int| 0 <= k < j - 1 ==> rest[k].id != id);
        lemma_commit_at(rest, id, layout, images, j - 1);
        assert(seq![c[0]] + rest.update(j - 1, classified_entry(rest[j - 1], layout, images))
            =~= c.update(j, classified_entry(c[j], layout, images)));
    }
}

/// When no entry has the id, the commit changes nothing.
pub proof fn lemma_commit_absent(
    c: Seq<BookView>,
    id: Seq<char>,
    layout: BookLayout,
    images: Seq<Seq<char>>,
)
    requires
        forall|k: int| 0 <= k < c.len() ==> #[trigger] c[k].id != id,
    ensures
        commit_to(c, id, layout, images) == c,
    decreases c.len(),
{
    if c.len() != 0 {
        lemma_commit_absent(c.drop_first(), id, layout, images);
        assert(seq![c[0]] + c.drop_first() =~= c);
    }
}

/// The pending-work query over a catalog, as [`pending_view`] describes it.
pub fn pending_books(catalog: &Vec<Book>) -> (r: Vec<BookIdAndKey>)
    ensures
        idkeys_view(r@) == pending_view(books_view(catalog@)),
{
    let ghost cs = books_view(catalog@);
    let ghost f = pending_pick();
    let len = catalog.len();
    let mut out: Vec<BookIdAndKey> = Vec::new();
    let mut i: usize = 0;
    proof {
        assert(cs.take(0).filter_map(f) =~= Seq::<BookIdAndKeyView>::empty());
        assert(idkeys_view(out@) =~= Seq::<BookIdAndKeyView>::empty());
    }
    while i < len
        invariant
            len == catalog.len(),
            cs == books_view(catalog@),
            f == pending_pick(),
            i <= len,
            cs.len() == len,
            forall|j: int| 0 <= j < len ==> cs[j] == catalog@[j]@,
            idkeys_view(out@) == cs.take(i as int).filter_map(f),
        decreases len - i,
    {
        let b = &catalog[i];
        if b.layout.is_none() {
            let entry = BookIdAndKey { id: b.id.clone(), key: b.key.clone() };
            proof {
                assert(f(cs[i as int]) == Some(entry@));
            }
            out.push(entry);
        } else {
            proof {
                assert(f(cs[i as int]) is None);
            }
        }
        proof {
            cs.lemma_filter_map_take_succ(f, i as int);
            if f(cs[i as int]) is Some {
                assert(idkeys_view(out@) =~= cs.take(i as int).filter_map(f).push(
                    f(cs[i as int])->Some_0,
                ));
                assert(cs.take(i + 1).filter_map(f) =~= cs.take(i as int).filter_map(f).push(
                    f(cs[i as int])->Some_0,
                ));
            } else {
                assert(cs.take(i + 1).filter_map(f) =~= cs.take(i as int).filter_map(f));
            }
        }
        i += 1;
    }
    proof {
        assert(cs.take(len as int) =~= cs);
    }
    out
}

/// The atomic terminal write: sets layout and images together on the first
/// entry with the given id, leaves every other entry untouched, and reports
/// whether such an entry exists. A reader of the catalog never observes a
/// layout without its matching image list.
pub fn commit_classification(
    catalog: &mut Vec<Book>,
    id: &str,
    layout: BookLayout,
    images: Vec<String>,
) -> (r: bool)
    ensures
        r == has_book(books_view(old(catalog)@), id@),
        books_view(final(catalog)@) == commit_to(
            books_view(old(catalog)@),
            id@,
            layout,
            strings_view(images@),
        ),
{
    let ghost cs = books_view(old(catalog)@);
    let ghost iv = strings_view(images@);
    let len = catalog.len();
    let mut j: usize = 0;
    while j < len
        invariant
            len == catalog.len(),
            catalog@ == old(catalog)@,
            cs == books_view(catalog@),
            j <= len,
            cs.len() == len,
            iv == strings_view(images@),
            forall|k: int| 0 <= k < len ==> cs[k] == catalog@[k]@,
            forall|k: int| 0 <= k < j ==> cs[k].id != id@,
        decreases len - j,
    {
        if str_eq(catalog[j].id.as_str(), id) {
            let b = &catalog[j];
            let updated = Book {
                id: b.id.clone(),
                key: b.key.clone(),
                owner_id: b.owner_id.clone(),
                name: b.name.clone(),
                creator: b.creator.clone(),
                publisher: b.publisher.clone(),
                date: b.date.clone(),
                cover_image: b.cover_image.clone(),
                visibility: b.visibility,
                direction: b.direction,
                created_at: b.created_at,
                layout: Some(layout),
                images,
            };
            proof {
                assert(updated@ =~= classified_entry(cs[j as int], layout, iv));
            }
            catalog[j] = updated;
            proof {
                lemma_commit_at(cs, id@, layout, iv, j as int);
                assert(books_view(catalog@) =~= cs.update(
                    j as int,
                    classified_entry(cs[j as int], layout, iv),
                ));
            }
            return true;
        }
        j += 1;
    }
    proof {
        lemma_commit_absent(cs, id@, layout, iv);
        assert(!has_book(cs, id@));
    }
    false
}

/// Failure isolation across books: one book's failed run writes nothing, and
/// another book's terminal commit classifies that book while leaving every
/// entry of the failed book exactly as it was, still pending for the next
/// pass.
pub proof fn lemma_book_isolation(
    c: Seq<BookView>,
    failed_id: Seq<char>,
    ok_id: Seq<char>,
    layout: BookLayout,
    images: Seq<Seq<char>>,
)
    requires
        failed_id != ok_id,
        has_book(c, ok_id),
    ensures
        ({
            let after = commit_to(c, ok_id, layout, images);
            &&& after.len() == c.len()
            &&& exists|j: int|
                0 <= j < after.len() && #[trigger] after[j].id == ok_id && after[j].layout
                    == Some(layout) && after[j].images == images
            &&& forall|j: int|
                0 <= j < c.len() && #[trigger] c[j].id == failed_id ==> after[j] == c[j]
        }),
    decreases c.len(),
{
    let after = commit_to(c, ok_id, layout, images);
    if c.len() == 0 {
        assert(false);
    } else if c[0].id == ok_id {
        assert(after == seq![classified_entry(c[0], layout, images)] + c.drop_first());
        assert(after[0].id == ok_id && after[0].layout == Some(layout) && after[0].images
            == images);
        assert(forall|j: int| 1 <= j < c.len() ==> after[j] == c[j - 1 + 1]);
    } else {
        let rest = c.drop_first();
        assert(has_book(rest, ok_id)) by {
            let j = choose|j: int| 0 <= j < c.len() && #[trigger] c[j].id == ok_id;
            assert(rest[j - 1].id == ok_id);
        }
        lemma_book_isolation(rest, failed_id, ok_id, layout, images);
        let after_rest = commit_to(rest, ok_id, layout, images);
        assert(after == seq![c[0]] + after_rest);
        let j = choose|j: int|
            0 <= j < after_rest.len() && #[trigger] after_rest[j].id == ok_id
                && after_rest[j].layout == Some(layout) && after_rest[j].images == images;
        assert(after[j + 1].id == ok_id && after[j + 1].layout == Some(layout) && after[j
            + 1].images == images);
        assert forall|j2: int|
            0 <= j2 < c.len() && #[trigger] c[j2].id == failed_id implies after[j2] == c[j2] by {
            if j2 == 0 {
                assert(after[0] == c[0]);
            } else {
                assert(rest[j2 - 1].id == failed_id);
                assert(after_rest[j2 - 1] == rest[j2 - 1]);
            }
        }
    }
}

} // verus!
