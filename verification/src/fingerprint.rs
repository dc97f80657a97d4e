//! Content fingerprinting for deduplication and idempotent re-processing.
//!
//! Two modes, chosen once per run: the fast mode hashes the file length,
//! the modification time when one is known, the first chunk of the content
//! and, past one chunk, the last chunk (the two may overlap — intentional);
//! the full mode hashes the entire content. Both produce the same
//! fixed-length lowercase hex digest, so fingerprints compare across runs.

use vstd::prelude::*;

verus! {

/// Size of the head and tail samples the fast mode hashes.
pub const FAST_CHUNK: usize = 1024;

/// The lowercase hex rendering of the SHA-256 digest of `bytes`.
/// It stands for the digest alone; nothing here states its value.
pub uninterp spec fn sha256_hex_of(bytes: Seq<u8>) -> Seq<char>;

/// Relies on sha2::Sha256: the SHA-256 digest is a function of the input
/// bytes alone, is 32 bytes long, and its `LowerHex` formatting renders it
/// as exactly 64 lowercase hex characters.
#[verifier::external_body]
fn sha256_hex(bytes: &Vec<u8>) -> (r: String)
    ensures
        r@ == sha256_hex_of(bytes@),
        r@.len() == 64,
{
    format!("{:x}", <sha2::Sha256 as sha2::Digest>::digest(bytes.as_slice()))
}

/// The big-endian bytes of a 64-bit integer.
pub open spec fn u64_be_bytes(x: u64) -> Seq<u8> {
    seq![
        (x >> 56) as u8,
        (x >> 48) as u8,
        (x >> 40) as u8,
        (x >> 32) as u8,
        (x >> 24) as u8,
        (x >> 16) as u8,
        (x >> 8) as u8,
        x as u8,
    ]
}

fn push_u64_be(x: u64, out: &mut Vec<u8>)
    ensures
        final(out)@ == old(out)@ + u64_be_bytes(x),
{
    out.push((x >> 56) as u8);
    out.push((x >> 48) as u8);
    out.push((x >> 40) as u8);
    out.push((x >> 32) as u8);
    out.push((x >> 24) as u8);
    out.push((x >> 16) as u8);
    out.push((x >> 8) as u8);
    out.push(x as u8);
    proof {
        assert(out@ =~= old(out)@ + u64_be_bytes(x));
    }
}

/// The exact byte sequence the fast mode feeds to the hash: length,
/// modification time if known, the first chunk, and — only past one
/// chunk — the last chunk, overlap allowed.
pub open spec fn fast_hash_bytes(len: u64, mtime: Option<u64>, content: Seq<u8>) -> Seq<u8> {
    let meta = u64_be_bytes(len) + match mtime {
        Option::Some(t) => u64_be_bytes(t),
        Option::None => Seq::<u8>::empty(),
    };
    let first = content.take(if content.len() < FAST_CHUNK { content.len() as int } else { FAST_CHUNK as int });
    let last = if content.len() > FAST_CHUNK {
        content.skip(if content.len() - FAST_CHUNK < FAST_CHUNK { FAST_CHUNK as int } else { content.len() - FAST_CHUNK })
    } else {
        Seq::<u8>::empty()
    };
    meta + first + last
}

/// The fast fingerprint of a file: hash over size, modification time and
/// the two sampled chunks.
pub fn fingerprint_fast(len: u64, mtime: Option<u64>, content: &Vec<u8>) -> (r: String)
    ensures
        r@ == sha256_hex_of(fast_hash_bytes(len, mtime, content@)),
        r@.len() == 64,
{
    let mut buf: Vec<u8> = Vec::new();
    push_u64_be(len, &mut buf);
    match mtime {
        Option::Some(t) => push_u64_be(t, &mut buf),
        Option::None => (),
    }
    let ghost meta: Seq<u8> = buf@;
    let n = content.len();
    let first_end = if n < FAST_CHUNK { n } else { FAST_CHUNK };
    let mut i: usize = 0;
    while i < first_end
        invariant
            i <= first_end <= n,
            n == content@.len(),
            first_end == if n < FAST_CHUNK { n as int } else { FAST_CHUNK as int },
            buf@ == meta + content@.take(i as int),
        decreases first_end - i,
    {
        buf.push(content[i]);
        proof {
            assert(buf@ =~= meta + content@.take(i + 1));
        }
        i = i + 1;
    }
    if n > FAST_CHUNK {
        let start = if n - FAST_CHUNK < FAST_CHUNK { FAST_CHUNK } else { n - FAST_CHUNK };
        let mut j: usize = start;
        while j < n
            invariant
                start <= j <= n,
                n == content@.len(),
                buf@ == meta + content@.take(if n < FAST_CHUNK { n as int } else { FAST_CHUNK as int })
                    + content@.subrange(start as int, j as int),
            decreases n - j,
        {
            buf.push(content[j]);
            proof {
                assert(buf@ =~= meta + content@.take(if n < FAST_CHUNK { n as int } else { FAST_CHUNK as int })
                    + content@.subrange(start as int, j + 1));
            }
            j = j + 1;
        }
    }
    proof {
        assert(buf@ =~= fast_hash_bytes(len, mtime, content@));
    }
    sha256_hex(&buf)
}

/// The full fingerprint of a file: hash over the entire content.
pub fn fingerprint_full(content: &Vec<u8>) -> (r: String)
    ensures
        r@ == sha256_hex_of(content@),
        r@.len() == 64,
{
    sha256_hex(content)
}

/// What a file's fingerprint is under the chosen mode.
pub open spec fn spec_fingerprint(
    full_hash: bool,
    len: u64,
    mtime: Option<u64>,
    content: Seq<u8>,
) -> Seq<char> {
    if full_hash {
        sha256_hex_of(content)
    } else {
        sha256_hex_of(fast_hash_bytes(len, mtime, content))
    }
}

/// The fingerprint of a file under the run's mode: full content hash when
/// `full_hash` is set, the fast sampled hash otherwise.
pub fn fingerprint_file(full_hash: bool, len: u64, mtime: Option<u64>, content: &Vec<u8>) -> (r:
    String)
    ensures
        r@ == spec_fingerprint(full_hash, len, mtime, content@),
        r@.len() == 64,
{
    if full_hash {
        fingerprint_full(content)
    } else {
        fingerprint_fast(len, mtime, content)
    }
}

/// The fast fingerprint reads only the size, the modification time, the
/// first chunk and the last chunk: two contents of the same length that
/// agree on both chunks fingerprint alike, however the bytes strictly
/// between the chunks differ. With equal inputs it is in particular
/// deterministic: the same unmodified file always fingerprints the same.
pub proof fn lemma_fast_fingerprint_locality(
    len: u64,
    mtime: Option<u64>,
    c1: Seq<u8>,
    c2: Seq<u8>,
)
    requires
        c1.len() == c2.len(),
        forall|i: int| 0 <= i < c1.len() && i < FAST_CHUNK ==> c1[i] == c2[i],
        forall|i: int| 0 <= i < c1.len() && i >= c1.len() - FAST_CHUNK ==> c1[i] == c2[i],
    ensures
        fast_hash_bytes(len, mtime, c1) == fast_hash_bytes(len, mtime, c2),
{
    let first_end = if c1.len() < FAST_CHUNK { c1.len() as int } else { FAST_CHUNK as int };
    assert(c1.take(first_end) =~= c2.take(first_end));
    if c1.len() > FAST_CHUNK {
        let start = if c1.len() - FAST_CHUNK < FAST_CHUNK { FAST_CHUNK as int } else { c1.len() - FAST_CHUNK };
        assert(c1.skip(start) =~= c2.skip(start));
    }
    assert(fast_hash_bytes(len, mtime, c1) =~= fast_hash_bytes(len, mtime, c2));
}

} // verus!
