//! The order of paths: component by component, each component first by its
//! kind (prefix, root, `.`, `..`, name), then by its bytes.
//!
//! The components come from `Path::components`; the comparison over them
//! is the lexicographic one that `Path`'s `Ord` applies to them. This is
//! `Path`'s order wherever paths have no prefix component (on Unix, and
//! for Windows paths without a drive or UNC prefix). On Windows, std orders
//! two prefix components by their parsed form; this order compares their
//! bytes instead.

use std::path::{Component, Path};
use vstd::prelude::*;

verus! {

/// The components that `Path::components` gives for `path`, each written
/// as its kind followed by its bytes: 0 for a prefix (Windows only), 1 for
/// the root, 2 for `.`, 3 for `..`, 4 for a name. The kinds are numbered in
/// the order in which `Component` declares (and derives `Ord` for) them.
pub uninterp spec fn path_components_of(path: Seq<char>) -> Seq<Seq<u8>>;

/// The values of a list of byte strings.
pub open spec fn byte_strings_view(v: Seq<Vec<u8>>) -> Seq<Seq<u8>> {
    v.map_values(|b: Vec<u8>| b@)
}

/// Calls `std::path::Path::components` and writes each component as its
/// kind followed by its bytes (`OsStr::as_encoded_bytes`). Claimed: the
/// result is the name `path_components_of` of the path.
#[verifier::external_body]
pub(crate) fn path_components(path: &str) -> (r: Vec<Vec<u8>>)
    ensures
        byte_strings_view(r@) == path_components_of(path@),
{
    let mut parts = Vec::new();
    for component in Path::new(path).components() {
        parts.push(match component {
            Component::Prefix(p) => [&[0u8][..], p.as_os_str().as_encoded_bytes()].concat(),
            Component::RootDir => vec![1u8],
            Component::CurDir => vec![2u8],
            Component::ParentDir => vec![3u8],
            Component::Normal(name) => [&[4u8][..], name.as_encoded_bytes()].concat(),
        });
    }
    parts
}

/// The lexicographic order of two byte strings: negative, zero or positive.
pub open spec fn bytes_order(a: Seq<u8>, b: Seq<u8>) -> int
    decreases a.len(),
{
    if a.len() == 0 {
        if b.len() == 0 {
            0
        } else {
            -1
        }
    } else if b.len() == 0 {
        1
    } else if a[0] < b[0] {
        -1
    } else if a[0] > b[0] {
        1
    } else {
        bytes_order(a.drop_first(), b.drop_first())
    }
}

/// The lexicographic order of two lists of components, each compared by
/// `bytes_order`.
pub open spec fn components_order(a: Seq<Seq<u8>>, b: Seq<Seq<u8>>) -> int
    decreases a.len(),
{
    if a.len() == 0 {
        if b.len() == 0 {
            0
        } else {
            -1
        }
    } else if b.len() == 0 {
        1
    } else if bytes_order(a[0], b[0]) != 0 {
        bytes_order(a[0], b[0])
    } else {
        components_order(a.drop_first(), b.drop_first())
    }
}

/// The order of two paths: `Path`'s `Ord` for paths without a prefix
/// component (the prefixes of Windows paths are compared by their bytes).
pub open spec fn path_order(a: Seq<char>, b: Seq<char>) -> int {
    components_order(path_components_of(a), path_components_of(b))
}

/// `bytes_order` is one of -1, 0, 1, flips with its arguments, and is zero
/// only on equal strings.
pub proof fn lemma_bytes_order_basics(a: Seq<u8>, b: Seq<u8>)
    ensures
        -1 <= bytes_order(a, b) <= 1,
        bytes_order(b, a) == -bytes_order(a, b),
        bytes_order(a, b) == 0 <==> a == b,
    decreases a.len(),
{
    if a.len() > 0 && b.len() > 0 {
        lemma_bytes_order_basics(a.drop_first(), b.drop_first());
        if a[0] == b[0] && a.drop_first() == b.drop_first() {
            assert(a =~= seq![a[0]] + a.drop_first());
            assert(b =~= seq![b[0]] + b.drop_first());
        }
    }
    if a.len() == 0 && b.len() == 0 {
        assert(a =~= b);
    }
}

/// `bytes_order` is transitive.
pub proof fn lemma_bytes_order_transitive(a: Seq<u8>, b: Seq<u8>, c: Seq<u8>)
    requires
        bytes_order(a, b) <= 0,
        bytes_order(b, c) <= 0,
    ensures
        bytes_order(a, c) <= 0,
    decreases a.len(),
{
    if a.len() > 0 && b.len() > 0 && c.len() > 0 && a[0] == b[0] && b[0] == c[0] {
        lemma_bytes_order_transitive(a.drop_first(), b.drop_first(), c.drop_first());
    }
}

/// `components_order` is one of -1, 0, 1, flips with its arguments, and is
/// zero only on equal lists.
pub proof fn lemma_components_order_basics(a: Seq<Seq<u8>>, b: Seq<Seq<u8>>)
    ensures
        -1 <= components_order(a, b) <= 1,
        components_order(b, a) == -components_order(a, b),
        components_order(a, b) == 0 <==> a == b,
    decreases a.len(),
{
    if a.len() > 0 && b.len() > 0 {
        lemma_bytes_order_basics(a[0], b[0]);
        lemma_components_order_basics(a.drop_first(), b.drop_first());
        if a[0] == b[0] && a.drop_first() == b.drop_first() {
            assert(a =~= seq![a[0]] + a.drop_first());
            assert(b =~= seq![b[0]] + b.drop_first());
        }
    }
    if a.len() == 0 && b.len() == 0 {
        assert(a =~= b);
    }
}

/// `components_order` is transitive.
pub proof fn lemma_components_order_transitive(a: Seq<Seq<u8>>, b: Seq<Seq<u8>>, c: Seq<Seq<u8>>)
    requires
        components_order(a, b) <= 0,
        components_order(b, c) <= 0,
    ensures
        components_order(a, c) <= 0,
    decreases a.len(),
{
    if a.len() > 0 && b.len() > 0 && c.len() > 0 {
        lemma_bytes_order_basics(a[0], b[0]);
        lemma_bytes_order_basics(b[0], c[0]);
        lemma_bytes_order_basics(a[0], c[0]);
        lemma_bytes_order_transitive(a[0], b[0], c[0]);
        if bytes_order(a[0], b[0]) == 0 && bytes_order(b[0], c[0]) == 0 {
            lemma_components_order_transitive(a.drop_first(), b.drop_first(), c.drop_first());
        }
    }
}

/// The order of paths is a total preorder: it flips with its arguments and
/// is transitive.
pub proof fn law_path_order_total_preorder(a: Seq<char>, b: Seq<char>, c: Seq<char>)
    ensures
        -1 <= path_order(a, b) <= 1,
        path_order(b, a) == -path_order(a, b),
        path_order(a, b) <= 0 && path_order(b, c) <= 0 ==> path_order(a, c) <= 0,
{
    lemma_components_order_basics(path_components_of(a), path_components_of(b));
    if path_order(a, b) <= 0 && path_order(b, c) <= 0 {
        lemma_components_order_transitive(
            path_components_of(a),
            path_components_of(b),
            path_components_of(c),
        );
    }
}

/// Byte strings are ordered lexicographically by byte value: where `a` and
/// `b` agree on their first `i` bytes, the byte at position `i` decides
/// (the numerically smaller byte comes first), and where one of them ends
/// there, it comes first (equal when both end).
pub proof fn law_bytes_order_lexicographic(a: Seq<u8>, b: Seq<u8>, i: int)
    requires
        0 <= i <= a.len(),
        i <= b.len(),
        a.take(i) == b.take(i),
    ensures
        i < a.len() && i < b.len() && a[i] < b[i] ==> bytes_order(a, b) == -1,
        i < a.len() && i < b.len() && a[i] > b[i] ==> bytes_order(a, b) == 1,
        i == a.len() && i < b.len() ==> bytes_order(a, b) == -1,
        i < a.len() && i == b.len() ==> bytes_order(a, b) == 1,
        i == a.len() && i == b.len() ==> bytes_order(a, b) == 0,
    decreases i,
{
    if i > 0 {
        assert(a[0] == a.take(i)[0] && b[0] == b.take(i)[0]);
        assert(a.drop_first().take(i - 1) =~= a.take(i).drop_first());
        assert(b.drop_first().take(i - 1) =~= b.take(i).drop_first());
        law_bytes_order_lexicographic(a.drop_first(), b.drop_first(), i - 1);
    }
}

/// Lists of components are ordered lexicographically: where `a` and `b`
/// agree on their first `i` components, the order of the components at
/// position `i` decides, and where one of them ends there, it comes first
/// (equal when both end).
pub proof fn law_components_order_lexicographic(a: Seq<Seq<u8>>, b: Seq<Seq<u8>>, i: int)
    requires
        0 <= i <= a.len(),
        i <= b.len(),
        a.take(i) == b.take(i),
    ensures
        i < a.len() && i < b.len() && bytes_order(a[i], b[i]) != 0 ==> components_order(a, b)
            == bytes_order(a[i], b[i]),
        i == a.len() && i < b.len() ==> components_order(a, b) == -1,
        i < a.len() && i == b.len() ==> components_order(a, b) == 1,
        i == a.len() && i == b.len() ==> components_order(a, b) == 0,
    decreases i,
{
    if i > 0 {
        assert(a[0] == a.take(i)[0] && b[0] == b.take(i)[0]);
        lemma_bytes_order_basics(a[0], b[0]);
        assert(a.drop_first().take(i - 1) =~= a.take(i).drop_first());
        assert(b.drop_first().take(i - 1) =~= b.take(i).drop_first());
        law_components_order_lexicographic(a.drop_first(), b.drop_first(), i - 1);
    }
}

/// Paths are ordered by their components, lexicographically: where the
/// components of `a` and `b` agree up to position `i`, the byte order of
/// their `i`-th components decides, and a path whose components run out
/// there comes first (equal when both run out).
pub proof fn law_path_order_by_components(a: Seq<char>, b: Seq<char>, i: int)
    requires
        0 <= i <= path_components_of(a).len(),
        i <= path_components_of(b).len(),
        path_components_of(a).take(i) == path_components_of(b).take(i),
    ensures
        ({
            let ca = path_components_of(a);
            let cb = path_components_of(b);
            &&& i < ca.len() && i < cb.len() && bytes_order(ca[i], cb[i]) != 0 ==> path_order(a, b)
                == bytes_order(ca[i], cb[i])
            &&& i == ca.len() && i < cb.len() ==> path_order(a, b) == -1
            &&& i < ca.len() && i == cb.len() ==> path_order(a, b) == 1
            &&& i == ca.len() && i == cb.len() ==> path_order(a, b) == 0
        }),
{
    law_components_order_lexicographic(path_components_of(a), path_components_of(b), i);
}

/// Compares two byte strings lexicographically.
pub fn compare_bytes(a: &Vec<u8>, b: &Vec<u8>) -> (r: i8)
    ensures
        r == bytes_order(a@, b@),
{
    let mut i: usize = 0;
    assert(a@.skip(0) =~= a@ && b@.skip(0) =~= b@);
    loop
        invariant
            i <= a@.len(),
            i <= b@.len(),
            bytes_order(a@, b@) == bytes_order(a@.skip(i as int), b@.skip(i as int)),
        decreases a@.len() - i,
    {
        if i == a.len() {
            return if i == b.len() {
                0
            } else {
                -1
            };
        }
        if i == b.len() {
            return 1;
        }
        if a[i] < b[i] {
            return -1;
        }
        if a[i] > b[i] {
            return 1;
        }
        assert(a@.skip(i as int).drop_first() =~= a@.skip(i + 1));
        assert(b@.skip(i as int).drop_first() =~= b@.skip(i + 1));
        i = i + 1;
    }
}

/// Compares two lists of components lexicographically.
pub fn compare_components(a: &Vec<Vec<u8>>, b: &Vec<Vec<u8>>) -> (r: i8)
    ensures
        r == components_order(byte_strings_view(a@), byte_strings_view(b@)),
{
    let ghost av = byte_strings_view(a@);
    let ghost bv = byte_strings_view(b@);
    let mut i: usize = 0;
    assert(av.skip(0) =~= av && bv.skip(0) =~= bv);
    loop
        invariant
            i <= a@.len(),
            i <= b@.len(),
            av == byte_strings_view(a@),
            bv == byte_strings_view(b@),
            components_order(av, bv) == components_order(av.skip(i as int), bv.skip(i as int)),
        decreases a@.len() - i,
    {
        if i == a.len() {
            return if i == b.len() {
                0
            } else {
                -1
            };
        }
        if i == b.len() {
            return 1;
        }
        let head = compare_bytes(&a[i], &b[i]);
        assert(av.skip(i as int)[0] == a@[i as int]@);
        assert(bv.skip(i as int)[0] == b@[i as int]@);
        if head != 0 {
            return head;
        }
        assert(av.skip(i as int).drop_first() =~= av.skip(i + 1));
        assert(bv.skip(i as int).drop_first() =~= bv.skip(i + 1));
        i = i + 1;
    }
}

} // verus!
