//! The check that a squashfs image's directories can be walked without
//! overflow: for each directory inode, the listing it points to in the
//! directory table, read header by header the way the reader reads it.
//!
//! A listing is a run of headers (`count` u32, `start` u32, `inode_num`
//! u32, little endian), each followed by `count + 1` entries (`offset` u16,
//! `inode_offset` i16, `type` u16 in 1..=14, `name_size` u16, then
//! `name_size + 1` name bytes). Reading stops at the first header that
//! does not parse.
use vstd::prelude::*;

verus! {

/// An inode as the check sees it: kind (1 basic directory, 2 extended
/// directory, 0 anything else), `block_offset`, `file_size`, `block_index`.
pub type InodeFields = (u8, u16, u32, u32);

/// The little-endian 16-bit value at byte `i` of `b`.
pub open spec fn le16(b: Seq<u8>, i: int) -> int {
    b[i] + b[i + 1] * 256
}

/// The little-endian 32-bit value at byte `i` of `b`.
pub open spec fn le32(b: Seq<u8>, i: int) -> int {
    b[i] + b[i + 1] * 256 + b[i + 2] * 65536 + b[i + 3] * 16777216
}

/// A 16-bit unsigned value read as two's complement.
pub open spec fn signed16(v: int) -> int {
    if v >= 0x8000 { v - 0x1_0000 } else { v }
}

/// A 32-bit unsigned value read as two's complement.
pub open spec fn signed32(v: int) -> int {
    if v >= 0x8000_0000 { v - 0x1_0000_0000 } else { v }
}

/// `a + b` fits in an `i32`.
pub open spec fn fits_i32(a: int, b: int) -> bool {
    -0x8000_0000 <= a + b <= 0x7FFF_FFFF
}

/// Reads `k` entries from byte `pos` of the listing `b` whose header holds
/// the inode number `base`: the position after them and whether adding each
/// entry's inode offset to `base` fits in an `i32`; `None` when they do not
/// parse.
pub open spec fn entries_check(b: Seq<u8>, pos: int, k: int, base: int) -> Option<(int, bool)>
    decreases k,
{
    if k <= 0 {
        Some((pos, true))
    } else if pos < 0 || pos + 8 > b.len() {
        None
    } else if le16(b, pos + 4) < 1 || le16(b, pos + 4) > 14 {
        None
    } else {
        let next = pos + 8 + le16(b, pos + 6) + 1;
        if next > b.len() {
            None
        } else {
            match entries_check(b, next, k - 1, base) {
                None => None,
                Some((e, ok)) => Some((e, ok && fits_i32(base, signed16(le16(b, pos + 2))))),
            }
        }
    }
}

/// The headers of the listing `b` from byte `p` on add entry offsets to
/// their inode numbers without overflow.
pub open spec fn headers_safe_from(b: Seq<u8>, p: int) -> bool
    decreases b.len() - p,
{
    if p < 0 || p + 12 > b.len() || le32(b, p) > 256 {
        true
    } else {
        match entries_check(b, p + 12, le32(b, p) + 1, signed32(le32(b, p + 8))) {
            None => true,
            Some((end, ok)) => if end <= p || end > b.len() {
                true
            } else {
                ok && headers_safe_from(b, end)
            },
        }
    }
}

/// Where the directory table's block with index `b` starts, if the block
/// index has it.
pub open spec fn block_start(blocks: Set<(u64, u64)>, b: u64) -> Option<u64> {
    if exists|o: u64| blocks.contains((b, o)) {
        Some(choose|o: u64| blocks.contains((b, o)))
    } else {
        None
    }
}

/// Each block index appears once.
pub open spec fn keys_unique(blocks: Set<(u64, u64)>) -> bool {
    forall|b: u64, o1: u64, o2: u64| blocks.contains((b, o1)) && blocks.contains((b, o2)) ==> o1 == o2
}

/// The inode `d` can be walked: it is not a directory, is empty, points at
/// no block of the table, or its listing does not overflow
/// `block_offset + file_size` in 32 bits and its headers are safe. These
/// are the reader's tests in its order: size, block index, block start,
/// length.
pub open spec fn listing_safe(blocks: Set<(u64, u64)>, table: Seq<u8>, d: InodeFields) -> bool {
    if d.0 == 0 || d.2 < 4 {
        true
    } else {
        match block_start(blocks, d.3 as u64) {
            None => true,
            Some(off) => if off > table.len() {
                true
            } else if d.1 + d.2 > u32::MAX {
                false
            } else {
                let block = table.skip(off as int);
                block.len() < d.1 + d.2 - 3 || headers_safe_from(block.subrange(d.1 as int, d.1 + d.2 - 3), 0)
            },
        }
    }
}

/// All inodes, the root too, can be walked.
pub open spec fn layout_safe(inodes: Set<InodeFields>, root: InodeFields, blocks: Set<(u64, u64)>, table: Seq<u8>) -> bool {
    &&& forall|d: InodeFields| #[trigger] inodes.contains(d) ==> listing_safe(blocks, table, d)
    &&& listing_safe(blocks, table, root)
}

fn read_le16(b: &[u8], i: usize) -> (v: u64)
    requires
        i + 2 <= b@.len(),
    ensures
        v == le16(b@, i as int),
{
    b[i] as u64 + b[i + 1] as u64 * 256
}

fn read_le32(b: &[u8], i: usize) -> (v: u64)
    requires
        i + 4 <= b@.len(),
    ensures
        v == le32(b@, i as int),
{
    b[i] as u64 + b[i + 1] as u64 * 256 + b[i + 2] as u64 * 65536 + b[i + 3] as u64 * 16777216
}

/// Combines a verdict so far with what is left.
pub open spec fn and_then(acc: bool, r: Option<(int, bool)>) -> Option<(int, bool)> {
    match r {
        None => None,
        Some((e, ok)) => Some((e, acc && ok)),
    }
}

/// Reads `k` entries of the listing `b` from `pos` (see [`entries_check`]).
fn check_entries(b: &[u8], pos: usize, k: u64, base: i64) -> (r: Option<(usize, bool)>)
    requires
        k <= 257,
        pos <= b@.len(),
        -0x8000_0000 <= base <= 0x7FFF_FFFF,
    ensures
        match entries_check(b@, pos as int, k as int, base as int) {
            None => r is None,
            Some((e, ok)) => r == Some((e as usize, ok)) && pos <= e <= b@.len(),
        },
{
    let n = b.len();
    let mut at = pos;
    let mut left = k;
    let mut acc = true;
    let ghost start = (pos as int, k as int);
    while left > 0
        invariant
            n == b@.len(),
            pos <= at <= n,
            -0x8000_0000 <= base <= 0x7FFF_FFFF,
            start == (pos as int, k as int),
            entries_check(b@, start.0, start.1, base as int)
                == and_then(acc, entries_check(b@, at as int, left as int, base as int)),
        decreases left,
    {
        if n - at < 8 {
            assert(entries_check(b@, at as int, left as int, base as int) is None);
            assert(entries_check(b@, start.0, start.1, base as int) is None);
            return None;
        }
        let t = read_le16(b, at + 4);
        if t < 1 || t > 14 {
            assert(entries_check(b@, at as int, left as int, base as int) is None);
            assert(entries_check(b@, start.0, start.1, base as int) is None);
            return None;
        }
        let name_size = read_le16(b, at + 6);
        if ((n - at - 8) as u64) < name_size + 1 {
            assert(at + 8 + le16(b@, at + 6) + 1 > n);
            assert(entries_check(b@, at as int, left as int, base as int) is None);
            assert(entries_check(b@, start.0, start.1, base as int) is None);
            return None;
        }
        let off = read_le16(b, at + 2);
        let off_signed: i64 = if off >= 32768 { off as i64 - 65536 } else { off as i64 };
        let here = -0x8000_0000i64 <= base + off_signed && base + off_signed <= 0x7FFF_FFFFi64;
        acc = acc && here;
        let ghost old_pos = at;
        at = at + 8 + name_size as usize + 1;
        left = left - 1;
        assert(here == fits_i32(base as int, signed16(le16(b@, old_pos + 2))));
    }
    Some((at, acc))
}

/// Whether the headers of the listing `b` are safe (see [`headers_safe_from`]).
pub fn listing_headers_safe(b: &[u8]) -> (ok: bool)
    ensures
        ok == headers_safe_from(b@, 0),
{
    let n = b.len();
    let mut p: usize = 0;
    loop
        invariant
            n == b@.len(),
            p <= n,
            headers_safe_from(b@, 0) == headers_safe_from(b@, p as int),
        decreases n - p,
    {
        if n - p < 12 {
            return true;
        }
        let count = read_le32(b, p);
        if count > 256 {
            return true;
        }
        let raw = read_le32(b, p + 8);
        assert(raw < 0x1_0000_0000);
        let base: i64 = if raw >= 0x8000_0000 { raw as i64 - 0x1_0000_0000 } else { raw as i64 };
        assert(base as int == signed32(le32(b@, p + 8)));
        let r = check_entries(b, p + 12, count + 1, base);
        assert(headers_safe_from(b@, p as int) == match entries_check(b@, p + 12, count + 1, base as int) {
            None => true,
            Some((end, ok)) => if end <= p || end > n { true } else { ok && headers_safe_from(b@, end) },
        });
        match r {
            None => return true,
            Some((end, ok)) => {
                if end <= p {
                    return true;
                }
                if !ok {
                    return false;
                }
                p = end;
            },
        }
    }
}

/// Whether the inode `d` can be walked (see [`listing_safe`]).
pub fn inode_listing_safe(blocks: &Vec<(u64, u64)>, table: &Vec<u8>, d: InodeFields) -> (ok: bool)
    requires
        keys_unique(blocks@.to_set()),
    ensures
        ok == listing_safe(blocks@.to_set(), table@, d),
{
    let (kind, block_offset, file_size, block_index) = d;
    if kind == 0 || file_size < 4 {
        return true;
    }
    let ghost set = blocks@.to_set();
    let n = blocks.len();
    let mut i: usize = 0;
    while i < n && blocks[i].0 != block_index as u64
        invariant
            n == blocks@.len(),
            i <= n,
            forall|j: int| 0 <= j < i ==> blocks@[j].0 != block_index as u64,
        decreases n - i,
    {
        i = i + 1;
    }
    if i == n {
        assert forall|o: u64| !#[trigger] set.contains((block_index as u64, o)) by {
            if set.contains((block_index as u64, o)) {
                let j = choose|j: int| 0 <= j < n && blocks@[j] == (block_index as u64, o);
                assert(blocks@[j].0 == block_index as u64);
            }
        }
        return true;
    }
    let off = blocks[i].1;
    assert(set.contains(blocks@[i as int]));
    assert(block_start(set, block_index as u64) == Some(off));
    if off > table.len() as u64 {
        return true;
    }
    if block_offset as u64 + file_size as u64 > 0xFFFF_FFFF {
        return false;
    }
    let block = vstd::slice::slice_subrange(table.as_slice(), off as usize, table.len());
    let need: usize = block_offset as usize + file_size as usize - 3;
    if block.len() < need {
        return true;
    }
    let listing = vstd::slice::slice_subrange(block, block_offset as usize, need);
    assert(block@ =~= table@.skip(off as int));
    listing_headers_safe(listing)
}

/// Whether all inodes, the root too, can be walked (see [`layout_safe`]).
pub fn layout_is_safe(inodes: &Vec<InodeFields>, root: InodeFields, blocks: &Vec<(u64, u64)>, table: &Vec<u8>) -> (ok: bool)
    requires
        keys_unique(blocks@.to_set()),
    ensures
        ok == layout_safe(inodes@.to_set(), root, blocks@.to_set(), table@),
{
    let n = inodes.len();
    for k in 0..n
        invariant
            n == inodes@.len(),
            keys_unique(blocks@.to_set()),
            forall|j: int| 0 <= j < k ==> listing_safe(blocks@.to_set(), table@, #[trigger] inodes@[j]),
    {
        if !inode_listing_safe(blocks, table, inodes[k]) {
            assert(!listing_safe(blocks@.to_set(), table@, inodes@[k as int]));
            assert(inodes@.to_set().contains(inodes@[k as int]));
            assert(!layout_safe(inodes@.to_set(), root, blocks@.to_set(), table@));
            return false;
        }
    }
    assert forall|d: InodeFields| inodes@.to_set().contains(d) implies listing_safe(blocks@.to_set(), table@, d) by {
        let j = choose|j: int| 0 <= j < inodes@.len() && inodes@[j] == d;
        assert(listing_safe(blocks@.to_set(), table@, inodes@[j]));
    }
    inode_listing_safe(blocks, table, root)
}

/// The sums `inode_num + inode_offset` the reader computes for `k` entries
/// read from byte `pos` of the listing `b` under a header holding `base`,
/// in order, with the position after them; `None` when they do not parse.
pub open spec fn entry_sums(b: Seq<u8>, pos: int, k: int, base: int) -> Option<(int, Seq<int>)>
    decreases k,
{
    if k <= 0 {
        Some((pos, Seq::empty()))
    } else if pos < 0 || pos + 8 > b.len() {
        None
    } else if le16(b, pos + 4) < 1 || le16(b, pos + 4) > 14 {
        None
    } else {
        let next = pos + 8 + le16(b, pos + 6) + 1;
        if next > b.len() {
            None
        } else {
            match entry_sums(b, next, k - 1, base) {
                None => None,
                Some((e, rest)) => Some((e, seq![base + signed16(le16(b, pos + 2))] + rest)),
            }
        }
    }
}

/// Every sum the reader computes while it reads the listing `b` from byte
/// `p` on, header after header until one does not parse.
pub open spec fn listing_sums(b: Seq<u8>, p: int) -> Seq<int>
    decreases b.len() - p,
{
    if p < 0 || p + 12 > b.len() || le32(b, p) > 256 {
        Seq::empty()
    } else {
        match entry_sums(b, p + 12, le32(b, p) + 1, signed32(le32(b, p + 8))) {
            None => Seq::empty(),
            Some((end, sums)) => if end <= p || end > b.len() {
                Seq::empty()
            } else {
                sums + listing_sums(b, end)
            },
        }
    }
}

/// Every value lies in the range of an `i32`.
pub open spec fn all_in_i32(s: Seq<int>) -> bool {
    forall|i: int| 0 <= i < s.len() ==> -0x8000_0000 <= #[trigger] s[i] <= 0x7FFF_FFFF
}

/// Walking the directory inode `d` overflows the reader's arithmetic: it is
/// a non-empty directory whose block the index has, starting inside the
/// table, and either `block_offset + file_size` exceeds 32 bits or its
/// listing, when the block holds it whole, makes a sum outside `i32`. The
/// listing's length does not matter otherwise.
pub open spec fn walk_overflows(blocks: Set<(u64, u64)>, table: Seq<u8>, d: InodeFields) -> bool {
    &&& d.0 != 0
    &&& d.2 >= 4
    &&& block_start(blocks, d.3 as u64) is Some
    &&& block_start(blocks, d.3 as u64).unwrap() <= table.len()
    &&& ({
        let off = block_start(blocks, d.3 as u64).unwrap() as int;
        let end = d.1 + d.2 - 3;
        ||| d.1 + d.2 > 0xFFFF_FFFF
        ||| (table.len() - off >= end && !all_in_i32(listing_sums(table.subrange(off + d.1, off + end), 0)))
    })
}

proof fn lemma_all_in_i32_cons(x: int, s: Seq<int>)
    ensures
        all_in_i32(seq![x] + s) == (-0x8000_0000 <= x <= 0x7FFF_FFFF && all_in_i32(s)),
{
    let t = seq![x] + s;
    if all_in_i32(t) {
        assert(t[0] == x);
        assert forall|i: int| 0 <= i < s.len() implies -0x8000_0000 <= #[trigger] s[i] <= 0x7FFF_FFFF by {
            assert(t[i + 1] == s[i]);
        }
    }
}

proof fn lemma_all_in_i32_append(s: Seq<int>, u: Seq<int>)
    ensures
        all_in_i32(s + u) == (all_in_i32(s) && all_in_i32(u)),
{
    let t = s + u;
    if all_in_i32(t) {
        assert forall|i: int| 0 <= i < s.len() implies -0x8000_0000 <= #[trigger] s[i] <= 0x7FFF_FFFF by {
            assert(t[i] == s[i]);
        }
        assert forall|i: int| 0 <= i < u.len() implies -0x8000_0000 <= #[trigger] u[i] <= 0x7FFF_FFFF by {
            assert(t[s.len() + i] == u[i]);
        }
    }
}

/// Reading entries for the check and reading them for their sums agree.
proof fn lemma_entries_check_sums(b: Seq<u8>, pos: int, k: int, base: int)
    ensures
        entries_check(b, pos, k, base) == match entry_sums(b, pos, k, base) {
            None => None,
            Some((e, sums)) => Some((e, all_in_i32(sums))),
        },
    decreases k,
{
    if k > 0 && !(pos < 0 || pos + 8 > b.len()) && !(le16(b, pos + 4) < 1 || le16(b, pos + 4) > 14) {
        let next = pos + 8 + le16(b, pos + 6) + 1;
        if next <= b.len() {
            lemma_entries_check_sums(b, next, k - 1, base);
            if let Some((e, rest)) = entry_sums(b, next, k - 1, base) {
                lemma_all_in_i32_cons(base + signed16(le16(b, pos + 2)), rest);
            }
        }
    } else if k <= 0 {
        assert(all_in_i32(Seq::<int>::empty()));
    }
}

/// The header check holds exactly when every sum the reader computes for
/// the listing lies in the range of an `i32`.
pub proof fn lemma_headers_safe_iff_sums_fit(b: Seq<u8>, p: int)
    ensures
        headers_safe_from(b, p) == all_in_i32(listing_sums(b, p)),
    decreases b.len() - p,
{
    if !(p < 0 || p + 12 > b.len() || le32(b, p) > 256) {
        let base = signed32(le32(b, p + 8));
        lemma_entries_check_sums(b, p + 12, le32(b, p) + 1, base);
        match entry_sums(b, p + 12, le32(b, p) + 1, base) {
            None => {
                assert(all_in_i32(Seq::<int>::empty()));
            },
            Some((end, sums)) => {
                if end <= p || end > b.len() {
                    assert(all_in_i32(Seq::<int>::empty()));
                } else {
                    lemma_headers_safe_iff_sums_fit(b, end);
                    lemma_all_in_i32_append(sums, listing_sums(b, end));
                }
            },
        }
    } else {
        assert(all_in_i32(Seq::<int>::empty()));
    }
}

/// A directory inode passes the check exactly when walking it does not
/// overflow, however long its listing is; the whole layout passes exactly
/// when no inode of the table, nor the root, overflows.
pub proof fn lemma_check_is_no_overflow(inodes: Set<InodeFields>, root: InodeFields, blocks: Set<(u64, u64)>, table: Seq<u8>)
    ensures
        forall|d: InodeFields| #[trigger] listing_safe(blocks, table, d) == !walk_overflows(blocks, table, d),
        layout_safe(inodes, root, blocks, table) == (
            (forall|d: InodeFields| inodes.contains(d) ==> !walk_overflows(blocks, table, d))
            && !walk_overflows(blocks, table, root)),
{
    assert forall|d: InodeFields| #[trigger] listing_safe(blocks, table, d) == !walk_overflows(blocks, table, d) by {
        if d.0 != 0 && d.2 >= 4 && block_start(blocks, d.3 as u64) is Some {
            let off = block_start(blocks, d.3 as u64).unwrap() as int;
            if off <= table.len() && d.1 + d.2 <= 0xFFFF_FFFF {
                let block = table.skip(off);
                let end = d.1 + d.2 - 3;
                if block.len() >= end {
                    assert(block.subrange(d.1 as int, end) =~= table.subrange(off + d.1, off + end));
                    lemma_headers_safe_iff_sums_fit(table.subrange(off + d.1, off + end), 0);
                }
            }
        }
    }
}

} // verus!
