//! Unix paths as raw bytes: rooted paths, taking the root off, joining,
//! and reading a path as text.
use vstd::prelude::*;
use vstd::utf8::{decode_utf8, valid_utf8};

verus! {

/// The separator `/`.
pub const SEP: u8 = 47;

/// `p` is a prefix of `s`.
pub open spec fn has_prefix(p: Seq<u8>, s: Seq<u8>) -> bool {
    p.len() <= s.len() && s.subrange(0, p.len() as int) == p
}

/// A path is rooted when it starts with `/`.
pub open spec fn is_rooted(p: Seq<u8>) -> bool {
    p.len() > 0 && p[0] == SEP
}

/// The number of leading separators of `p`.
pub open spec fn root_len(p: Seq<u8>) -> nat
    decreases p.len(),
{
    if p.len() > 0 && p[0] == SEP {
        1 + root_len(p.drop_first())
    } else {
        0
    }
}

/// A rooted path with its root taken off; `None` for a relative one.
pub open spec fn rootless(p: Seq<u8>) -> Option<Seq<u8>> {
    if is_rooted(p) {
        Some(p.skip(root_len(p) as int))
    } else {
        None
    }
}

/// Joining `rel` onto `base` the Unix way: a rooted `rel` replaces `base`;
/// otherwise one separator goes between them unless `base` is empty or
/// already ends with one.
pub open spec fn path_join(base: Seq<u8>, rel: Seq<u8>) -> Seq<u8> {
    if is_rooted(rel) {
        rel
    } else if base.len() == 0 || base.last() == SEP {
        base + rel
    } else {
        base + seq![SEP] + rel
    }
}

/// The text of a path that is UTF-8.
pub open spec fn path_text(p: Seq<u8>) -> Option<Seq<char>> {
    if valid_utf8(p) {
        Some(decode_utf8(p))
    } else {
        None
    }
}

/// `std::str::from_utf8`: the bytes as text when they are UTF-8.
#[verifier::external_body]
pub(crate) fn utf8_str(b: &[u8]) -> (r: Option<&str>)
    ensures
        r is Some <==> valid_utf8(b@),
        r matches Some(s) ==> s@ == decode_utf8(b@),
{
    std::str::from_utf8(b).ok()
}

/// Joins `rel` onto `base` by the rules of [`path_join`].
pub fn join_bytes(base: &[u8], rel: &[u8]) -> (r: Vec<u8>)
    ensures
        r@ == path_join(base@, rel@),
{
    let mut r: Vec<u8> = Vec::new();
    if rel.len() > 0 && rel[0] == SEP {
        append_bytes(&mut r, rel);
        assert(r@ =~= rel@);
        return r;
    }
    append_bytes(&mut r, base);
    if base.len() > 0 && base[base.len() - 1] != SEP {
        r.push(SEP);
    }
    append_bytes(&mut r, rel);
    assert(r@ =~= path_join(base@, rel@));
    r
}

/// Appends the bytes of `s` to `v`.
fn append_bytes(v: &mut Vec<u8>, s: &[u8])
    ensures
        final(v)@ == old(v)@ + s@,
{
    let ghost start = v@;
    for i in 0..s.len()
        invariant
            v@ == start + s@.take(i as int),
    {
        v.push(s[i]);
        assert(s@.take(i + 1) =~= s@.take(i as int).push(s@[i as int]));
    }
    assert(s@.take(s@.len() as int) =~= s@);
}

/// The run of leading separators ends at a non-separator or at the end.
pub proof fn lemma_root_len(p: Seq<u8>, i: int)
    requires
        0 <= i <= p.len(),
        forall|j: int| 0 <= j < i ==> p[j] == SEP,
        i == p.len() || p[i] != SEP,
    ensures
        root_len(p) == i,
    decreases i,
{
    if i > 0 {
        let q = p.drop_first();
        assert forall|j: int| 0 <= j < i - 1 implies q[j] == SEP by {
            assert(q[j] == p[j + 1]);
        }
        if i - 1 < q.len() {
            assert(q[i - 1] == p[i]);
        }
        lemma_root_len(q, i - 1);
    }
}

/// The run of leading separators ends at a non-separator or at the end.
pub proof fn lemma_root_len_bound(p: Seq<u8>)
    ensures
        root_len(p) <= p.len(),
        root_len(p) < p.len() ==> p[root_len(p) as int] != SEP,
    decreases p.len(),
{
    if p.len() > 0 && p[0] == SEP {
        lemma_root_len_bound(p.drop_first());
        let r = root_len(p.drop_first());
        if r < p.drop_first().len() {
            assert(p[r as int + 1] == p.drop_first()[r as int]);
        }
    }
}

/// The root taken off leaves no separator in front.
pub proof fn lemma_rootless_relative(p: Seq<u8>)
    ensures
        rootless(p) matches Some(rel) ==> !is_rooted(rel),
{
    lemma_root_len_bound(p);
}

/// Takes the root off a rooted path; `None` for a relative one.
pub fn strip_root_bytes(p: &[u8]) -> (r: Option<Vec<u8>>)
    ensures
        r matches Some(s) ==> rootless(p@) == Some(s@),
        r is None ==> rootless(p@) is None,
{
    let n = p.len();
    if n == 0 || p[0] != SEP {
        return None;
    }
    let mut i: usize = 0;
    while i < n && p[i] == SEP
        invariant
            n == p@.len(),
            i <= n,
            forall|j: int| 0 <= j < i ==> p@[j] == SEP,
        decreases n - i,
    {
        i = i + 1;
    }
    proof {
        lemma_root_len(p@, i as int);
    }
    let mut r: Vec<u8> = Vec::new();
    append_bytes(&mut r, vstd::slice::slice_subrange(p, i, n));
    assert(r@ =~= p@.skip(i as int));
    Some(r)
}

} // verus!
