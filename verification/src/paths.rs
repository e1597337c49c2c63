//! Paths and file names as text.

use vstd::prelude::*;
use crate::text::same_text;

verus! {

/// The path that `std::path::Path::join` makes of a base path and a part
/// adjoined to it, both taken as text, by the rules of the platform that the
/// library is built for.
pub uninterp spec fn joined(base: Seq<char>, part: Seq<char>) -> Seq<char>;

/// Adjoins `part` to the path `base` by calling `std::path::Path::join`.
/// Nothing is proved of that call. The contract only gives its result the
/// name [`joined`], and so claims no more than that the same two texts
/// always give the same path: where the separator goes, and that an absolute
/// `part` takes the place of `base`, is left to the standard library. Both
/// arguments are text, so the path that comes back is text as well and
/// turning it into a `String` loses nothing.
#[verifier::external_body]
pub(crate) fn join(base: &str, part: &str) -> (r: String)
    ensures
        r@ == joined(base@, part@),
{
    std::path::Path::new(base).join(part).to_string_lossy().into_owned()
}

/// The index of the last `.` in a file name, or -1 where it has none.
pub open spec fn last_dot(name: Seq<char>) -> int
    decreases name.len(),
{
    if name.len() == 0 {
        -1
    } else if name.last() == '.' {
        name.len() - 1
    } else {
        last_dot(name.drop_last())
    }
}

/// The stem of a file name: what stands before its last `.`. A name without
/// a `.`, or whose only `.` is its first character, is its own stem.
pub open spec fn stem_of(name: Seq<char>) -> Seq<char> {
    if last_dot(name) <= 0 {
        name
    } else {
        name.subrange(0, last_dot(name))
    }
}

/// The extension of a file name: what stands behind its last `.`. A name
/// without a `.`, or whose only `.` is its first character, has none.
pub open spec fn extension_of(name: Seq<char>) -> Option<Seq<char>> {
    if last_dot(name) <= 0 {
        None
    } else {
        Some(name.subrange(last_dot(name) + 1, name.len() as int))
    }
}

/// What `last_dot` finds is a `.`, and no `.` stands behind it.
pub proof fn lemma_last_dot(name: Seq<char>)
    ensures
        -1 <= last_dot(name) < name.len(),
        last_dot(name) >= 0 ==> name[last_dot(name)] == '.',
        forall|j: int| last_dot(name) < j < name.len() ==> name[j] != '.',
    decreases name.len(),
{
    if name.len() > 0 && name.last() != '.' {
        lemma_last_dot(name.drop_last());
        assert forall|j: int| last_dot(name) < j < name.len() implies name[j] != '.' by {
            if j < name.len() - 1 {
                assert(name.drop_last()[j] == name[j]);
            }
        }
    }
}

/// A `.` at index `d` with none behind it is the last one.
pub proof fn lemma_last_dot_is(name: Seq<char>, d: int)
    requires
        0 <= d < name.len(),
        name[d] == '.',
        forall|j: int| d < j < name.len() ==> name[j] != '.',
    ensures
        last_dot(name) == d,
    decreases name.len(),
{
    if d < name.len() - 1 {
        assert(name.last() != '.');
        assert(name.drop_last()[d] == name[d]);
        assert forall|j: int| d < j < name.drop_last().len() implies name.drop_last()[j] != '.' by {
            assert(name.drop_last()[j] == name[j]);
        }
        lemma_last_dot_is(name.drop_last(), d);
    }
}

/// The index of the last `.` in `name`.
pub fn find_last_dot(name: &str) -> (r: Option<usize>)
    ensures
        match r {
            Some(d) => last_dot(name@) == d,
            None => last_dot(name@) == -1,
        },
{
    let n = name.unicode_len();
    let mut i: usize = n;
    proof {
        assert(name@.take(n as int) =~= name@);
    }
    while i > 0
        invariant
            n == name@.len(),
            i <= n,
            last_dot(name@) == last_dot(name@.take(i as int)),
        decreases i,
    {
        proof {
            let s = name@.take(i as int);
            assert(s.last() == name@[i - 1]);
            assert(s.drop_last() =~= name@.take(i - 1));
        }
        if name.get_char(i - 1) == '.' {
            return Some(i - 1);
        }
        i -= 1;
    }
    None
}

/// The stem of the file name `name`.
pub fn file_stem(name: &str) -> (r: String)
    ensures
        r@ == stem_of(name@),
{
    proof {
        lemma_last_dot(name@);
    }
    match find_last_dot(name) {
        Some(d) => {
            if d == 0 {
                name.to_owned()
            } else {
                name.substring_char(0, d).to_owned()
            }
        },
        None => name.to_owned(),
    }
}

/// Whether the extension of the file name `name` is `ext`.
pub fn has_extension(name: &str, ext: &str) -> (r: bool)
    ensures
        r == (extension_of(name@) == Some(ext@)),
{
    proof {
        lemma_last_dot(name@);
    }
    match find_last_dot(name) {
        Some(d) => {
            if d == 0 {
                false
            } else {
                let n = name.unicode_len();
                same_text(name.substring_char(d + 1, n), ext)
            }
        },
        None => false,
    }
}

} // verus!
