//! Path syntax: `/`-separated components, read one at a time.
//!
//! A path is taken as its UTF-8 bytes.  Any number of separators in a row
//! stands for one component boundary, and separators at the start are
//! skipped.

use vstd::prelude::*;
use vstd::string::StringSliceAdditionalSpecFns;
use vstd::utf8::*;

verus! {

/// The path separator, `/`.
pub const SEP: u8 = 0x2f;

/// The byte of a dot, `.`.
pub const DOT: u8 = 0x2e;

/// The number of separators that `p` starts with.
pub open spec fn leading_seps(p: Seq<u8>) -> int
    decreases p.len(),
{
    if p.len() > 0 && p[0] == SEP {
        1 + leading_seps(p.drop_first())
    } else {
        0
    }
}

/// The index of the first separator in `p`, or the length of `p` if it has
/// none.
pub open spec fn first_sep(p: Seq<u8>) -> int
    decreases p.len(),
{
    if p.len() == 0 || p[0] == SEP {
        0
    } else {
        1 + first_sep(p.drop_first())
    }
}

/// `p` without the separators that it starts with.
pub open spec fn trim_start(p: Seq<u8>) -> Seq<u8> {
    p.skip(leading_seps(p))
}

/// The first component of `p`: what stands between the leading separators
/// and the next separator.  Empty if `p` is empty or holds separators only.
pub open spec fn split_head(p: Seq<u8>) -> Seq<u8> {
    let t = trim_start(p);
    t.take(first_sep(t))
}

/// What follows the separator that ends the first component of `p`; `None`
/// if no separator follows the first component.
pub open spec fn split_rest(p: Seq<u8>) -> Option<Seq<u8>> {
    let t = trim_start(p);
    let n = first_sep(t);
    if n < t.len() {
        Some(t.skip(n + 1))
    } else {
        None
    }
}

/// Whether `s` is the component `.`.
pub open spec fn is_dot(s: Seq<u8>) -> bool {
    s =~= seq![DOT]
}

/// Whether `s` is the component `..`.
pub open spec fn is_dotdot(s: Seq<u8>) -> bool {
    s =~= seq![DOT, DOT]
}

/// Whether `s` can name an entry of a directory: it is not empty, holds no
/// separator, and is neither `.` nor `..`.
pub open spec fn is_plain_name(s: Seq<u8>) -> bool {
    &&& s.len() > 0
    &&& forall|i: int| 0 <= i < s.len() ==> s[i] != SEP
    &&& !is_dot(s)
    &&& !is_dotdot(s)
}

/// `leading_seps` counts exactly the separators before the first byte that
/// is none.
pub proof fn lemma_leading_seps(p: Seq<u8>)
    ensures
        0 <= leading_seps(p) <= p.len(),
        forall|i: int| 0 <= i < leading_seps(p) ==> p[i] == SEP,
        leading_seps(p) < p.len() ==> p[leading_seps(p)] != SEP,
    decreases p.len(),
{
    if p.len() > 0 && p[0] == SEP {
        let t = p.drop_first();
        lemma_leading_seps(t);
        assert forall|i: int| 0 <= i < leading_seps(p) implies p[i] == SEP by {
            if i > 0 {
                assert(p[i] == t[i - 1]);
            }
        }
        if leading_seps(p) < p.len() {
            assert(p[leading_seps(p)] == t[leading_seps(t)]);
        }
    }
}

/// An index before which all bytes are separators, and at which `p` ends or
/// holds another byte, is `leading_seps(p)`.
pub proof fn lemma_leading_seps_at(p: Seq<u8>, n: int)
    requires
        0 <= n <= p.len(),
        forall|i: int| 0 <= i < n ==> p[i] == SEP,
        n < p.len() ==> p[n] != SEP,
    ensures
        leading_seps(p) == n,
{
    lemma_leading_seps(p);
    let m = leading_seps(p);
    if m < n {
        assert(p[m] == SEP);
    } else if m > n {
        assert(p[n] == SEP);
    }
}

/// `first_sep` is the index of the first separator, or the length.
pub proof fn lemma_first_sep(p: Seq<u8>)
    ensures
        0 <= first_sep(p) <= p.len(),
        forall|i: int| 0 <= i < first_sep(p) ==> p[i] != SEP,
        first_sep(p) < p.len() ==> p[first_sep(p)] == SEP,
    decreases p.len(),
{
    if p.len() == 0 || p[0] == SEP {
    } else {
        let t = p.drop_first();
        lemma_first_sep(t);
        assert forall|i: int| 0 <= i < first_sep(p) implies p[i] != SEP by {
            if i > 0 {
                assert(p[i] == t[i - 1]);
            }
        }
        if first_sep(p) < p.len() {
            assert(p[first_sep(p)] == t[first_sep(t)]);
        }
    }
}

/// An index before which no byte is a separator, and at which `p` ends or
/// holds one, is `first_sep(p)`.
pub proof fn lemma_first_sep_at(p: Seq<u8>, n: int)
    requires
        0 <= n <= p.len(),
        forall|i: int| 0 <= i < n ==> p[i] != SEP,
        n < p.len() ==> p[n] == SEP,
    ensures
        first_sep(p) == n,
{
    lemma_first_sep(p);
    let m = first_sep(p);
    if m < n {
        assert(p[m] == SEP);
    } else if m > n {
        assert(p[n] != SEP);
    }
}

/// The first component holds no separator, and what is left after it is
/// shorter than the path.
pub proof fn lemma_split(p: Seq<u8>)
    ensures
        forall|i: int| 0 <= i < split_head(p).len() ==> split_head(p)[i] != SEP,
        split_head(p).len() <= p.len(),
        split_rest(p) is Some ==> split_rest(p)->0.len() + split_head(p).len() < p.len(),
{
    lemma_leading_seps(p);
    lemma_first_sep(trim_start(p));
}

/// The components of `p`: the pieces between its separators that are not
/// empty, in their order.
pub open spec fn components(p: Seq<u8>) -> Seq<Seq<u8>>
    decreases p.len(),
{
    if split_head(p).len() == 0 {
        seq![]
    } else {
        match split_rest(p) {
            None => seq![split_head(p)],
            Some(rest) => {
                proof {
                    lemma_split(p);
                }
                seq![split_head(p)] + components(rest)
            },
        }
    }
}

/// Whether `p` ends in a component: it has one, and no separator follows
/// its last one.
pub open spec fn ends_open(p: Seq<u8>) -> bool
    decreases p.len(),
{
    match split_rest(p) {
        None => split_head(p).len() > 0,
        Some(rest) => {
            proof {
                lemma_split(p);
            }
            ends_open(rest)
        },
    }
}

/// Whether two paths differ only in how many separators stand at their
/// start, between their components and at their end, where both have some
/// at their end or neither has.
pub open spec fn same_spelling(p: Seq<u8>, q: Seq<u8>) -> bool {
    components(p) == components(q) && ends_open(p) == ends_open(q)
}

/// A path without a first component has nothing after it either.
pub proof fn lemma_empty_head(p: Seq<u8>)
    requires
        split_head(p).len() == 0,
    ensures
        split_rest(p) is None,
        components(p) == Seq::<Seq<u8>>::empty(),
        !ends_open(p),
{
    lemma_leading_seps(p);
    lemma_first_sep(trim_start(p));
}

/// A text without a separator is its own first component, with nothing
/// after it.
pub proof fn lemma_split_plain(s: Seq<u8>)
    requires
        forall|i: int| 0 <= i < s.len() ==> s[i] != SEP,
    ensures
        split_head(s) == s,
        split_rest(s) is None,
{
    lemma_leading_seps_at(s, 0);
    assert(trim_start(s) =~= s);
    lemma_first_sep_at(s, s.len() as int);
    assert(split_head(s) =~= s);
}

/// A separator more at the start of a path changes neither its first
/// component nor what follows it.
pub proof fn lemma_split_leading_sep(p: Seq<u8>)
    ensures
        split_head(seq![SEP] + p) == split_head(p),
        split_rest(seq![SEP] + p) == split_rest(p),
{
    let q = seq![SEP] + p;
    assert(q.drop_first() =~= p);
    lemma_leading_seps(p);
    assert(trim_start(q) =~= trim_start(p));
}

/// A separator more at the end of a path that has a component leaves the
/// first component as it is and becomes part of what follows it.
pub proof fn lemma_split_trailing_sep(p: Seq<u8>)
    requires
        split_head(p).len() > 0,
    ensures
        split_head(p + seq![SEP]) == split_head(p),
        split_rest(p + seq![SEP]) == match split_rest(p) {
            None => Some(Seq::<u8>::empty()),
            Some(rest) => Some(rest + seq![SEP]),
        },
{
    let q = p + seq![SEP];
    let k = leading_seps(p);
    lemma_leading_seps(p);
    lemma_leading_seps_at(q, k);
    let t = trim_start(p);
    let tq = trim_start(q);
    assert(tq =~= t + seq![SEP]);
    let n = first_sep(t);
    lemma_first_sep(t);
    lemma_first_sep_at(tq, n);
    assert(split_head(q) =~= split_head(p));
    if n < t.len() {
        assert(tq.skip(n + 1) =~= t.skip(n + 1) + seq![SEP]);
    } else {
        assert(tq.skip(n + 1) =~= Seq::<u8>::empty());
    }
}

/// In valid UTF-8, the byte after a single-byte character starts a
/// character or ends the text.
proof fn lemma_boundary_after_ascii(bytes: Seq<u8>)
    requires
        valid_utf8(bytes),
        bytes.len() > 0,
        bytes[0] < 0x80,
    ensures
        is_char_boundary(bytes, 1),
{
    assert(length_of_first_scalar(bytes) == 1);
    assert(valid_utf8(pop_first_scalar(bytes)));
    assert(is_char_boundary(pop_first_scalar(bytes), 0));
    reveal_with_fuel(is_char_boundary, 2);
}

/// In valid UTF-8, a separator starts a character.
proof fn lemma_boundary_at_sep(bytes: Seq<u8>, n: int)
    requires
        valid_utf8(bytes),
        0 <= n <= bytes.len(),
        n < bytes.len() ==> bytes[n] == SEP,
    ensures
        is_char_boundary(bytes, n),
{
    if n < bytes.len() {
        is_char_boundary_iff_not_is_continuation_byte(bytes, n);
    } else {
        is_char_boundary_start_end_of_seq(bytes);
    }
}

/// Splits a path into its first component and the rest.
///
/// Leading separators are skipped.  If no separator is left, the whole
/// remainder (which may be empty) is the first component and there is no
/// rest; otherwise the remainder is cut at its first separator, which
/// belongs to neither part.
pub fn split_path<'a>(path: &'a str) -> (r: (&'a str, Option<&'a str>))
    ensures
        r.0.spec_bytes() == split_head(path.spec_bytes()),
        match r.1 {
            Some(rest) => split_rest(path.spec_bytes()) == Some(rest.spec_bytes()),
            None => split_rest(path.spec_bytes()) is None,
        },
{
    let ghost p = path.spec_bytes();
    let mut t: &'a str = path;
    let ghost mut k: int = 0;
    loop
        invariant
            0 <= k <= p.len(),
            t.spec_bytes() == p.skip(k),
            forall|i: int| 0 <= i < k ==> p[i] == SEP,
        ensures
            t.spec_bytes().len() == 0 || t.spec_bytes()[0] != SEP,
        decreases p.len() - k,
    {
        let b = t.as_bytes();
        if b.len() == 0 || b[0] != SEP {
            break ;
        }
        proof {
            encode_utf8_valid_utf8(t@);
            lemma_boundary_after_ascii(t.spec_bytes());
        }
        let (_, r) = t.split_at(1);
        proof {
            assert(r.spec_bytes() =~= p.skip(k + 1));
            k = k + 1;
        }
        t = r;
    }
    let b = t.as_bytes();
    proof {
        lemma_leading_seps_at(p, k);
        assert(t.spec_bytes() == trim_start(p));
    }
    let mut j: usize = 0;
    while j < b.len() && b[j] != SEP
        invariant
            j <= b@.len(),
            b@ == t.spec_bytes(),
            forall|i: int| 0 <= i < j ==> b@[i] != SEP,
        decreases b@.len() - j,
    {
        j += 1;
    }
    proof {
        encode_utf8_valid_utf8(t@);
        lemma_first_sep_at(b@, j as int);
        lemma_boundary_at_sep(b@, j as int);
    }
    let (head, tail) = t.split_at(j);
    assert(head.spec_bytes() =~= split_head(p));
    if j < b.len() {
        proof {
            encode_utf8_valid_utf8(tail@);
            assert(tail.spec_bytes()[0] == SEP);
            lemma_boundary_after_ascii(tail.spec_bytes());
        }
        let (_, rest) = tail.split_at(1);
        assert(rest.spec_bytes() =~= b@.skip(j + 1));
        (head, Some(rest))
    } else {
        (head, None)
    }
}

/// Whether two byte strings are equal.
pub fn bytes_eq(a: &[u8], b: &[u8]) -> (r: bool)
    ensures
        r == (a@ == b@),
{
    if a.len() != b.len() {
        return false;
    }
    let mut i: usize = 0;
    while i < a.len()
        invariant
            i <= a@.len(),
            a@.len() == b@.len(),
            forall|k: int| 0 <= k < i ==> a@[k] == b@[k],
        decreases a@.len() - i,
    {
        if a[i] != b[i] {
            return false;
        }
        i += 1;
    }
    assert(a@ =~= b@);
    true
}

/// Whether `name` is the component `.`.
pub fn name_is_dot(name: &[u8]) -> (r: bool)
    ensures
        r == is_dot(name@),
{
    name.len() == 1 && name[0] == DOT
}

/// Whether `name` is the component `..`.
pub fn name_is_dotdot(name: &[u8]) -> (r: bool)
    ensures
        r == is_dotdot(name@),
{
    name.len() == 2 && name[0] == DOT && name[1] == DOT
}

/// Whether `name` can name an entry of a directory.
pub fn name_is_plain(name: &[u8]) -> (r: bool)
    ensures
        r == is_plain_name(name@),
{
    if name.len() == 0 || name_is_dot(name) || name_is_dotdot(name) {
        return false;
    }
    let mut i: usize = 0;
    while i < name.len()
        invariant
            i <= name@.len(),
            forall|k: int| 0 <= k < i ==> name@[k] != SEP,
        decreases name@.len() - i,
    {
        if name[i] == SEP {
            return false;
        }
        i += 1;
    }
    true
}

} // verus!
