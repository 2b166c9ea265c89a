//! The content hash of an AppImage: seahash over its bytes, fed in chunks
//! of one mebibyte as they are read, written in base62. It names the
//! temporary directories the runtime mounts or extracts into.
use vstd::prelude::*;

use crate::text::{is_absolute, is_prefix, lemma_join_relative, path_join, join_path};

verus! {

/// The size of the chunks in which an image is read and hashed.
pub const HASH_CHUNK_LEN: usize = 1048576;

/// Declares seahash's streaming hasher `seahash::SeaHasher` to Verus as an
/// opaque type.
#[verifier::external_type_specification]
#[verifier::external_body]
pub struct ExSeaHasher(seahash::SeaHasher);

/// What a seahash streaming hasher holds: the bytes written into it so far.
pub uninterp spec fn hasher_input(h: seahash::SeaHasher) -> Seq<u8>;

/// The 64-bit seahash (default keys) of a byte sequence.
pub uninterp spec fn sea_hash(data: Seq<u8>) -> u64;

/// `seahash::SeaHasher::new`: a hasher with the crate's default keys that
/// has absorbed nothing.
#[verifier::external_body]
fn new_sea_hasher() -> (h: seahash::SeaHasher)
    ensures
        hasher_input(h) == Seq::<u8>::empty(),
{
    seahash::SeaHasher::new()
}

/// `Hasher::write` on a `SeaHasher`: the streaming hasher buffers partial
/// words, so what it has absorbed is the concatenation of what was written.
#[verifier::external_body]
fn sea_hasher_write(h: &mut seahash::SeaHasher, bytes: &[u8])
    ensures
        hasher_input(*final(h)) == hasher_input(*old(h)) + bytes@,
{
    std::hash::Hasher::write(h, bytes);
}

/// `Hasher::finish` on a `SeaHasher`: the seahash of all bytes written, and
/// the hasher is left as it was.
#[verifier::external_body]
fn sea_hasher_finish(h: &seahash::SeaHasher) -> (d: u64)
    ensures
        d == sea_hash(hasher_input(*h)),
{
    std::hash::Hasher::finish(h)
}

/// The base62 digit for `d < 62`: `0`-`9`, then `A`-`Z`, then `a`-`z`.
pub open spec fn base62_digit(d: nat) -> char {
    if d < 10 {
        (48 + d) as char
    } else if d < 36 {
        (65 + (d - 10)) as char
    } else {
        (97 + (d - 36)) as char
    }
}

/// `n` in base 62, most significant digit first, without leading zeros
/// (`"0"` for zero).
pub open spec fn base62(n: nat) -> Seq<char>
    decreases n,
{
    if n < 62 {
        seq![base62_digit(n)]
    } else {
        base62(n / 62).push(base62_digit(n % 62))
    }
}

/// `base62::encode`: the standard base62 text of `n`, digits ordered
/// `0`-`9`, `A`-`Z`, `a`-`z`, most significant first, without padding.
#[verifier::external_body]
fn base62_encode(n: u64) -> (s: String)
    ensures
        s@ == base62(n as nat),
{
    base62::encode(n)
}

/// The hash text of a byte sequence.
pub open spec fn content_hash(data: Seq<u8>) -> Seq<char> {
    base62(sea_hash(data) as nat)
}

/// Hashes an image as it is read: each chunk the reader hands over is fed
/// to the hasher, and the reader is asked for more while chunks come full.
pub struct ImageHasher {
    hasher: seahash::SeaHasher,
}

impl View for ImageHasher {
    type V = Seq<u8>;

    /// The bytes fed so far.
    closed spec fn view(&self) -> Seq<u8> {
        hasher_input(self.hasher)
    }
}

impl ImageHasher {
    /// A hasher that has been fed nothing.
    pub fn new() -> (h: ImageHasher)
        ensures
            h@ == Seq::<u8>::empty(),
    {
        ImageHasher { hasher: new_sea_hasher() }
    }

    /// Feeds one chunk that was read, and says whether to read on: a chunk
    /// shorter than [`HASH_CHUNK_LEN`] marks the end of the input.
    pub fn absorb(&mut self, chunk: &[u8]) -> (more: bool)
        ensures
            final(self)@ == old(self)@ + chunk@,
            more == (chunk@.len() == HASH_CHUNK_LEN),
    {
        sea_hasher_write(&mut self.hasher, chunk);
        chunk.len() == HASH_CHUNK_LEN
    }

    /// The hash text of everything fed so far.
    pub fn digest(&self) -> (s: String)
        ensures
            s@ == content_hash(self@),
    {
        base62_encode(sea_hasher_finish(&self.hasher))
    }
}

/// The hash text of an image's bytes, fed in chunks of [`HASH_CHUNK_LEN`]
/// the way they are read from a file (ending with an empty chunk when the
/// length is a multiple of the chunk size).
pub fn get_hash(data: &[u8]) -> (s: String)
    ensures
        s@ == content_hash(data@),
{
    let mut h = ImageHasher::new();
    let n = data.len();
    let mut pos: usize = 0;
    loop
        invariant
            n == data@.len(),
            pos <= n,
            h@ == data@.subrange(0, pos as int),
        ensures
            h@ == data@,
        decreases n - pos + 1,
    {
        let end: usize = if n - pos >= HASH_CHUNK_LEN { pos + HASH_CHUNK_LEN } else { n };
        let chunk = vstd::slice::slice_subrange(data, pos, end);
        let more = h.absorb(chunk);
        assert(data@.subrange(0, pos as int) + data@.subrange(pos as int, end as int)
            =~= data@.subrange(0, end as int));
        pos = end;
        if !more {
            assert(pos == n);
            assert(data@.subrange(0, n as int) =~= data@);
            break;
        }
    }
    h.digest()
}

/// The path of the temporary directory named by `prefix` and a hash text,
/// inside `temp_dir`.
pub fn hashed_dir_path(temp_dir: &str, prefix: &str, hash: &str) -> (p: String)
    ensures
        p@ == path_join(temp_dir@, prefix@ + hash@),
{
    let mut name = prefix.to_owned();
    name.append(hash);
    join_path(temp_dir, name.as_str())
}

/// The temporary directory for an image: `prefix` followed by the hash text
/// of the image's bytes, inside `temp_dir`.
pub fn make_hashed_tempdirname(image: &[u8], prefix: &str, temp_dir: &str) -> (p: String)
    ensures
        p@ == path_join(temp_dir@, prefix@ + content_hash(image@)),
{
    let hash = get_hash(image);
    hashed_dir_path(temp_dir, prefix, hash.as_str())
}

/// The hash text is never empty.
pub proof fn lemma_content_hash_nonempty(data: Seq<u8>)
    ensures
        content_hash(data).len() > 0,
{
    let n = sea_hash(data) as nat;
    if n >= 62 {
        assert(base62(n) == base62(n / 62).push(base62_digit(n % 62)));
    }
}

/// The hashed directory of an image lies inside `temp_dir`, and its name
/// ends with the hash text of the image's bytes, so images with the same
/// bytes share it.
pub proof fn lemma_hashed_dir_in_temp_dir(temp_dir: Seq<char>, prefix: Seq<char>, data: Seq<u8>)
    requires
        !is_absolute(prefix),
    ensures
        is_prefix(temp_dir, path_join(temp_dir, prefix + content_hash(data))),
        ({
            let p = path_join(temp_dir, prefix + content_hash(data));
            let h = content_hash(data);
            p.skip(p.len() - h.len()) == h
        }),
{
    let name = prefix + content_hash(data);
    lemma_content_hash_nonempty(data);
    if prefix.len() == 0 {
        assert(name =~= content_hash(data));
        let n = sea_hash(data) as nat;
        lemma_base62_first_digit(n);
    } else {
        assert(name[0] == prefix[0]);
    }
    lemma_join_relative(temp_dir, name);
    let p = path_join(temp_dir, name);
    let h = content_hash(data);
    assert(p.skip(p.len() - name.len()).skip(prefix.len() as int) =~= p.skip(p.len() - h.len()));
    assert(name.skip(prefix.len() as int) =~= h);
}

/// The first character of a base62 text is a digit or a letter, never `/`.
proof fn lemma_base62_first_digit(n: nat)
    ensures
        base62(n).len() > 0,
        base62(n)[0] != '/',
    decreases n,
{
    if n >= 62 {
        lemma_base62_first_digit(n / 62);
        assert(base62(n)[0] == base62(n / 62)[0]);
    }
}

} // verus!
