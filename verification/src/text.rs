//! Text and path helpers shared by the runtime: prefix tests, decimal
//! formatting and the Unix rules for joining and rooting paths.
use vstd::prelude::*;

verus! {

/// `p` is a prefix of `s`.
pub open spec fn is_prefix(p: Seq<char>, s: Seq<char>) -> bool {
    p.len() <= s.len() && s.subrange(0, p.len() as int) == p
}

/// A path is absolute on Unix when it starts with the root `/`.
pub open spec fn is_absolute(p: Seq<char>) -> bool {
    p.len() > 0 && p[0] == '/'
}

/// Joining `rel` onto `base` the way a Unix path is extended: an absolute
/// `rel` replaces `base`; otherwise one separator is put between them unless
/// `base` is empty or already ends with one.
pub open spec fn path_join(base: Seq<char>, rel: Seq<char>) -> Seq<char> {
    if is_absolute(rel) {
        rel
    } else if base.len() == 0 || base.last() == '/' {
        base + rel
    } else {
        base + seq!['/'] + rel
    }
}

/// The number of leading `/` characters of `p`.
pub open spec fn root_len(p: Seq<char>) -> nat
    decreases p.len(),
{
    if p.len() > 0 && p[0] == '/' {
        1 + root_len(p.drop_first())
    } else {
        0
    }
}

/// A rooted path with its root taken off: `None` when `p` is not absolute.
pub open spec fn rootless(p: Seq<char>) -> Option<Seq<char>> {
    if is_absolute(p) {
        Some(p.skip(root_len(p) as int))
    } else {
        None
    }
}

/// The character of a decimal digit.
pub open spec fn decimal_digit(d: nat) -> char {
    (48 + d) as char
}

/// The decimal text of `n`, most significant digit first, without leading zeros.
pub open spec fn decimal(n: nat) -> Seq<char>
    decreases n,
{
    if n < 10 {
        seq![decimal_digit(n)]
    } else {
        decimal(n / 10).push(decimal_digit(n % 10))
    }
}

/// Appends one character to a string (std's `String::push`).
#[verifier::external_body]
pub(crate) fn push_char(s: &mut String, c: char)
    ensures
        final(s)@ == old(s)@.push(c),
{
    s.push(c);
}

/// Whether `s` starts with `p`, compared character by character.
pub fn starts_with(s: &str, p: &str) -> (b: bool)
    ensures
        b == is_prefix(p@, s@),
{
    let n = s.unicode_len();
    let m = p.unicode_len();
    if m > n {
        return false;
    }
    let mut i: usize = 0;
    while i < m
        invariant
            m <= n,
            n == s@.len(),
            m == p@.len(),
            i <= m,
            forall|j: int| 0 <= j < i ==> s@[j] == p@[j],
        decreases m - i,
    {
        if s.get_char(i) != p.get_char(i) {
            assert(s@.subrange(0, m as int)[i as int] != p@[i as int]);
            return false;
        }
        i = i + 1;
    }
    assert(s@.subrange(0, m as int) =~= p@);
    true
}

/// Whether two strings hold the same characters.
pub fn same_text(a: &str, b: &str) -> (eq: bool)
    ensures
        eq == (a@ == b@),
{
    if a.unicode_len() != b.unicode_len() {
        return false;
    }
    let r = starts_with(a, b);
    assert(a@.subrange(0, b@.len() as int) =~= a@);
    r
}

/// The decimal text of `n`.
pub fn decimal_text(n: u64) -> (s: String)
    ensures
        s@ == decimal(n as nat),
    decreases n,
{
    let d: u8 = (n % 10) as u8;
    let c: char = (48u8 + d) as char;
    if n < 10 {
        let mut s = String::new();
        push_char(&mut s, c);
        assert(s@ =~= seq![decimal_digit(n as nat)]);
        s
    } else {
        let mut s = decimal_text(n / 10);
        push_char(&mut s, c);
        s
    }
}

/// Joins `rel` onto `base` by the Unix rules of [`path_join`].
pub fn join_path(base: &str, rel: &str) -> (r: String)
    ensures
        r@ == path_join(base@, rel@),
{
    let rl = rel.unicode_len();
    if rl > 0 && rel.get_char(0) == '/' {
        return rel.to_owned();
    }
    let bl = base.unicode_len();
    let mut r = base.to_owned();
    if bl > 0 && base.get_char(bl - 1) != '/' {
        push_char(&mut r, '/');
    }
    r.append(rel);
    r
}

/// Takes the root off an absolute path; `None` for a relative one.
pub fn strip_root(p: &str) -> (r: Option<String>)
    ensures
        r matches Some(s) ==> rootless(p@) == Some(s@),
        r is None ==> rootless(p@) is None,
{
    let n = p.unicode_len();
    if n == 0 || p.get_char(0) != '/' {
        return None;
    }
    let mut i: usize = 0;
    while i < n && p.get_char(i) == '/'
        invariant
            n == p@.len(),
            i <= n,
            forall|j: int| 0 <= j < i ==> p@[j] == '/',
        decreases n - i,
    {
        i = i + 1;
    }
    proof {
        lemma_root_len(p@, i as int);
    }
    Some(p.substring_char(i, n).to_owned())
}

/// `root_len` counts exactly the run of leading separators.
proof fn lemma_root_len(p: Seq<char>, i: int)
    requires
        0 <= i <= p.len(),
        forall|j: int| 0 <= j < i ==> p[j] == '/',
        i == p.len() || p[i] != '/',
    ensures
        root_len(p) == i,
    decreases i,
{
    if i > 0 {
        let q = p.drop_first();
        assert forall|j: int| 0 <= j < i - 1 implies q[j] == '/' by {
            assert(q[j] == p[j + 1]);
        }
        if i - 1 < q.len() {
            assert(q[i - 1] == p[i]);
        }
        lemma_root_len(q, i - 1);
    }
}

/// Joining a relative path keeps the base in front and the relative path
/// at the end.
pub proof fn lemma_join_relative(base: Seq<char>, rel: Seq<char>)
    requires
        !is_absolute(rel),
    ensures
        is_prefix(base, path_join(base, rel)),
        path_join(base, rel).len() >= rel.len(),
        path_join(base, rel).skip(path_join(base, rel).len() - rel.len()) == rel,
{
    let j = path_join(base, rel);
    assert(j.subrange(0, base.len() as int) =~= base);
    assert(j.skip(j.len() - rel.len()) =~= rel);
}

/// The number a string of decimal digits denotes, most significant first.
pub open spec fn decimal_value(s: Seq<char>) -> int
    decreases s.len(),
{
    if s.len() == 0 {
        0
    } else {
        decimal_value(s.drop_last()) * 10 + (s.last() as int - 48)
    }
}

/// Every character is a decimal digit.
pub open spec fn all_digits(s: Seq<char>) -> bool {
    forall|i: int| 0 <= i < s.len() ==> '0' <= #[trigger] s[i] <= '9'
}

/// The decimal text of `n` is made of digits and denotes `n`.
pub proof fn lemma_decimal_denotes(n: nat)
    ensures
        all_digits(decimal(n)),
        decimal_value(decimal(n)) == n,
        decimal(n).len() > 0,
    decreases n,
{
    if n >= 10 {
        lemma_decimal_denotes(n / 10);
        let d = decimal(n);
        assert(d.drop_last() =~= decimal(n / 10));
        assert(d.last() == decimal_digit(n % 10));
        assert(decimal_digit(n % 10) as int == 48 + n % 10);
        assert(decimal_value(d) == decimal_value(d.drop_last()) * 10 + (d.last() as int - 48));
        assert(decimal_value(d) == (n / 10) * 10 + n % 10);
        assert forall|i: int| 0 <= i < d.len() implies '0' <= #[trigger] d[i] <= '9' by {
            if i < d.len() - 1 {
                assert(d[i] == decimal(n / 10)[i]);
            }
        }
    } else {
        assert(decimal_digit(n) as int == 48 + n);
        let d = decimal(n);
        assert(d.drop_last() =~= Seq::<char>::empty());
        assert(decimal_value(d) == decimal_value(d.drop_last()) * 10 + (d.last() as int - 48));
    }
}

} // verus!
