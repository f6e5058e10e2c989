//! Relative-path arithmetic over archive-root-relative paths.
//!
//! Paths inside an extracted container are plain `/`-separated strings
//! relative to the archive root; resolving a reference never touches the
//! filesystem.

use vstd::prelude::*;

use crate::strutil::concat3;

verus! {

/// `rel` resolved against the directory `dir`: `dir` empty means the archive
/// root, so the result is `rel` itself.
pub open spec fn joined(dir: Seq<char>, rel: Seq<char>) -> Seq<char> {
    if dir.len() == 0 {
        rel
    } else {
        dir + seq!['/'] + rel
    }
}

/// The directory part of `p`: everything before the last `/`, empty when `p`
/// has no `/`.
pub open spec fn parent_of(p: Seq<char>) -> Seq<char>
    decreases p.len(),
{
    if p.len() == 0 {
        Seq::empty()
    } else if p.last() == '/' {
        p.drop_last()
    } else {
        parent_of(p.drop_last())
    }
}

/// Scan for the file-name extension from the end of `p`, carrying the
/// characters already passed over in `acc`.
pub open spec fn ext_scan(p: Seq<char>, acc: Seq<char>) -> Option<Seq<char>>
    decreases p.len(),
{
    if p.len() == 0 {
        None
    } else if p.last() == '.' {
        Some(acc)
    } else if p.last() == '/' {
        None
    } else {
        ext_scan(p.drop_last(), seq![p.last()] + acc)
    }
}

/// The extension of the file named by `p`: the characters after the last `.`
/// of its final segment, empty when that segment has no `.`.
pub open spec fn ext_of(p: Seq<char>) -> Seq<char> {
    match ext_scan(p, Seq::empty()) {
        Some(e) => e,
        None => Seq::empty(),
    }
}

/// Resolves `rel` against the directory `dir` by plain concatenation.
pub fn join_path(dir: &str, rel: &str) -> (r: String)
    ensures
        r@ == joined(dir@, rel@),
{
    if dir.unicode_len() == 0 {
        rel.to_owned()
    } else {
        let r = concat3(dir, "/", rel);
        proof {
            reveal_strlit("/");
            assert("/"@ =~= seq!['/']);
            assert(r@ =~= joined(dir@, rel@));
        }
        r
    }
}

/// The directory part of `p`, as [`parent_of`] describes it.
pub fn parent_dir(p: &str) -> (r: &str)
    ensures
        r@ == parent_of(p@),
{
    let n = p.unicode_len();
    let mut i: usize = n;
    proof {
        assert(p@.take(n as int) =~= p@);
    }
    while i > 0
        invariant
            n == p@.len(),
            i <= n,
            parent_of(p@) == parent_of(p@.take(i as int)),
        decreases i,
    {
        if p.get_char(i - 1) == '/' {
            proof {
                assert(p@.take(i as int).last() == p@[i - 1]);
                assert(p@.take(i as int).drop_last() =~= p@.subrange(0, i - 1));
            }
            return p.substring_char(0, i - 1);
        }
        proof {
            assert(p@.take(i as int).last() == p@[i - 1]);
            assert(p@.take(i as int).drop_last() =~= p@.take(i - 1));
        }
        i -= 1;
    }
    proof {
        reveal_strlit("");
        assert(p@.take(0) =~= Seq::<char>::empty());
        assert(""@ =~= Seq::<char>::empty());
    }
    ""
}

/// The extension of the file named by `p`, as [`ext_of`] describes it.
pub fn extension_of(p: &str) -> (r: &str)
    ensures
        r@ == ext_of(p@),
{
    let n = p.unicode_len();
    let mut i: usize = n;
    proof {
        assert(p@.take(n as int) =~= p@);
        assert(p@.skip(n as int) =~= Seq::<char>::empty());
    }
    while i > 0
        invariant
            n == p@.len(),
            i <= n,
            ext_scan(p@, Seq::empty()) == ext_scan(p@.take(i as int), p@.skip(i as int)),
        decreases i,
    {
        let c = p.get_char(i - 1);
        proof {
            assert(p@.take(i as int).last() == p@[i - 1]);
            assert(p@.take(i as int).drop_last() =~= p@.take(i - 1));
        }
        if c == '.' {
            let r = p.substring_char(i, n);
            proof {
                assert(r@ =~= p@.skip(i as int));
            }
            return r;
        }
        if c == '/' {
            proof {
                reveal_strlit("");
                assert(""@ =~= Seq::<char>::empty());
            }
            return "";
        }
        proof {
            assert(seq![p@[i - 1]] + p@.skip(i as int) =~= p@.skip(i - 1));
        }
        i -= 1;
    }
    proof {
        reveal_strlit("");
        assert(p@.take(0) =~= Seq::<char>::empty());
        assert(""@ =~= Seq::<char>::empty());
    }
    ""
}

} // verus!
