//! Sealing and opening chunks with XChaCha20-Poly1305, and cutting data into
//! chunks that fit a DHT value.
//!
//! Wire format of a sealed chunk: `nonce (24 B) || ciphertext || tag (16 B)`.
use vstd::prelude::*;
use vstd::slice::slice_subrange;
use vstd::slice::slice_to_vec;

use chacha20poly1305::aead::Aead;
use chacha20poly1305::aead::KeyInit;
use chacha20poly1305::XChaCha20Poly1305;
use rand::RngCore;

use crate::error::CryptoError;

verus! {

/// Maximum plaintext bytes per DHT chunk.
pub const CHUNK_SIZE: usize = 32_000;

/// Length of an XChaCha20-Poly1305 nonce.
pub const NONCE_LEN: usize = 24;

/// Length of the Poly1305 authentication tag appended to every ciphertext.
pub const TAG_LEN: usize = 16;

/// Bytes a sealed chunk adds to its plaintext: the nonce and the tag.
pub const SEAL_OVERHEAD: usize = 40;

// ---------------------------------------------------------------------------
// What the cipher computes
// ---------------------------------------------------------------------------

/// The cipher seals or opens a message of `len` bytes: the message spans at
/// most `u32::MAX - 1` blocks of 64 bytes, the keystream left after the block
/// that keys Poly1305 (the ChaCha20 block counter must not overflow).
pub open spec fn cipher_accepts(len: nat) -> bool {
    (len + 63) / 64 < 0xFFFF_FFFFnat
}

/// Lengths the cipher's own length check lets through although the keystream
/// is too short for them: fewer than `u32::MAX` whole blocks, but a partial
/// block past the last one available. On these the keystream call panics.
pub open spec fn keystream_gap(len: nat) -> bool {
    &&& len / 64 < 0xFFFF_FFFFnat
    &&& !cipher_accepts(len)
}

/// Decides `cipher_accepts` for a length.
fn fits_keystream(len: usize) -> (res: bool)
    ensures
        res == cipher_accepts(len as nat),
{
    len / 64 < 0xFFFF_FFFE || (len / 64 == 0xFFFF_FFFE && len % 64 == 0)
}

/// What `XChaCha20Poly1305::encrypt` returns for a key, a nonce and a
/// plaintext (with no associated data): the ciphertext followed by the tag.
pub uninterp spec fn xchacha20poly1305_seal(key: Seq<u8>, nonce: Seq<u8>, plaintext: Seq<u8>) -> Seq<u8>;

/// A sealed chunk: the nonce, then the cipher's output for that nonce.
pub open spec fn sealed_chunk(key: Seq<u8>, nonce: Seq<u8>, plaintext: Seq<u8>) -> Seq<u8> {
    nonce + xchacha20poly1305_seal(key, nonce, plaintext)
}

/// `data` is a sealed chunk of `plaintext` under `key`: it is 40 bytes longer
/// than the plaintext, the cipher accepts the plaintext, and sealing the
/// plaintext with the nonce at the front of `data` gives back `data`.
pub open spec fn opens_to(key: Seq<u8>, data: Seq<u8>, plaintext: Seq<u8>) -> bool {
    &&& data.len() == plaintext.len() + SEAL_OVERHEAD
    &&& cipher_accepts(plaintext.len())
    &&& sealed_chunk(key, data.subrange(0, NONCE_LEN as int), plaintext) == data
}

// ---------------------------------------------------------------------------
// Calls into chacha20poly1305 and rand
// ---------------------------------------------------------------------------

/// The error type of the `aead` crate, returned by `encrypt` and `decrypt`.
#[verifier::external_type_specification]
#[verifier::external_body]
pub struct ExAeadError(chacha20poly1305::aead::Error);

/// Fills `buf` from `rand::thread_rng()` through `RngCore::fill_bytes`.
/// Nothing is claimed of the bytes: they come from the operating system's
/// randomness. The length of the buffer is unchanged.
#[verifier::external_body]
fn fill_random(buf: &mut [u8])
    ensures
        final(buf)@.len() == old(buf)@.len(),
{
    rand::thread_rng().fill_bytes(buf)
}

/// Calls `Aead::encrypt` of `XChaCha20Poly1305` (chacha20poly1305 0.10) with an
/// empty associated data. The source fails when the plaintext has `u32::MAX`
/// or more whole 64-byte blocks. Below that, the keystream (counted from
/// block 1, so `u32::MAX - 1` blocks are left) must cover the plaintext
/// rounded up to whole blocks, or `apply_keystream` panics; those lengths
/// (`keystream_gap`) are left out. Otherwise it returns the plaintext
/// encrypted in place followed by the 16-byte tag. It allocates
/// `plaintext.len() + 16` bytes, which must not overflow.
#[verifier::external_body]
fn xchacha_encrypt(key: &[u8; 32], nonce: &[u8], plaintext: &[u8]) -> (res: Result<Vec<u8>, chacha20poly1305::aead::Error>)
    requires
        nonce@.len() == NONCE_LEN,
        plaintext@.len() + TAG_LEN <= isize::MAX,
        !keystream_gap(plaintext@.len()),
    ensures
        res is Ok <==> cipher_accepts(plaintext@.len()),
        res matches Ok(ct) ==> ct@ == xchacha20poly1305_seal(key@, nonce@, plaintext@),
        res matches Ok(ct) ==> ct@.len() == plaintext@.len() + TAG_LEN,
{
    let cipher = XChaCha20Poly1305::new(key.into());
    cipher.encrypt(chacha20poly1305::XNonce::from_slice(nonce), plaintext)
}

/// Calls `Aead::decrypt` of `XChaCha20Poly1305` (chacha20poly1305 0.10) with an
/// empty associated data. In the source, decryption fails when the input is
/// shorter than the tag; when it succeeds, the output is the input without
/// its tag, XORed with the keystream, and the tag verified, so sealing the
/// output again gives back the input. For any plaintext the cipher accepts,
/// the input that sealing it produces decrypts to that plaintext. As for
/// encryption, a body (input without its tag) whose length is in the
/// keystream gap makes the keystream call panic once the tag verifies; such
/// inputs are left out.
#[verifier::external_body]
fn xchacha_decrypt(key: &[u8; 32], nonce: &[u8], ciphertext: &[u8]) -> (res: Result<Vec<u8>, chacha20poly1305::aead::Error>)
    requires
        nonce@.len() == NONCE_LEN,
        ciphertext@.len() < TAG_LEN || !keystream_gap((ciphertext@.len() - TAG_LEN) as nat),
    ensures
        ciphertext@.len() < TAG_LEN ==> res is Err,
        res matches Ok(pt) ==> pt@.len() + TAG_LEN == ciphertext@.len(),
        res matches Ok(pt) ==> cipher_accepts(pt@.len()),
        res matches Ok(pt) ==> xchacha20poly1305_seal(key@, nonce@, pt@) == ciphertext@,
        res is Ok || forall|pt: Seq<u8>|
            cipher_accepts(pt.len()) ==> #[trigger] xchacha20poly1305_seal(key@, nonce@, pt) != ciphertext@,
        res matches Ok(out) ==> forall|pt: Seq<u8>|
            cipher_accepts(pt.len()) && #[trigger] xchacha20poly1305_seal(key@, nonce@, pt) == ciphertext@
                ==> pt == out@,
{
    let cipher = XChaCha20Poly1305::new(key.into());
    cipher.decrypt(chacha20poly1305::XNonce::from_slice(nonce), ciphertext)
}

// ---------------------------------------------------------------------------
// Key generation
// ---------------------------------------------------------------------------

/// Draws a fresh 256-bit encryption key from the operating system's randomness.
pub fn generate_key() -> (key: [u8; 32])
    ensures
        key@.len() == 32,
{
    let mut key = [0u8; 32];
    fill_random(&mut key);
    key
}

// ---------------------------------------------------------------------------
// Encrypt / decrypt
// ---------------------------------------------------------------------------

/// Seals `plaintext` under `key` with the given nonce: `nonce || ciphertext || tag`.
pub fn encrypt_chunk_with_nonce(key: &[u8; 32], nonce: &[u8; 24], plaintext: &[u8]) -> (res: Result<Vec<u8>, CryptoError>)
    requires
        plaintext@.len() + SEAL_OVERHEAD <= isize::MAX,
    ensures
        res is Ok <==> cipher_accepts(plaintext@.len()),
        res matches Ok(out) ==> out@ == sealed_chunk(key@, nonce@, plaintext@),
        res matches Ok(out) ==> opens_to(key@, out@, plaintext@),
        res matches Err(e) ==> e == CryptoError::EncryptionFailed,
{
    if !fits_keystream(plaintext.len()) {
        return Err(CryptoError::EncryptionFailed);
    }
    let nonce_slice = nonce.as_slice();
    match xchacha_encrypt(key, nonce_slice, plaintext) {
        Ok(mut ct) => {
            let mut out = slice_to_vec(nonce_slice);
            out.append(&mut ct);
            proof {
                assert(out@.subrange(0, NONCE_LEN as int) =~= nonce@);
            }
            Ok(out)
        },
        Err(_) => Err(CryptoError::EncryptionFailed),
    }
}

/// Seals `plaintext` under `key` with a fresh random nonce.
///
/// Returns `nonce (24 B) || ciphertext || tag (16 B)`; decrypting it with the
/// same key gives back `plaintext` (see `opens_to` and `decrypt_chunk`).
pub fn encrypt_chunk(key: &[u8; 32], plaintext: &[u8]) -> (res: Result<Vec<u8>, CryptoError>)
    requires
        plaintext@.len() + SEAL_OVERHEAD <= isize::MAX,
    ensures
        res is Ok <==> cipher_accepts(plaintext@.len()),
        res matches Ok(out) ==> opens_to(key@, out@, plaintext@),
        res matches Err(e) ==> e == CryptoError::EncryptionFailed,
{
    let mut nonce = [0u8; 24];
    fill_random(&mut nonce);
    encrypt_chunk_with_nonce(key, &nonce, plaintext)
}

/// Opens a sealed chunk. Fails with `ChunkTooShort` when the data is no longer
/// than a nonce, and with `DecryptionFailed` when no plaintext the cipher
/// accepts seals to it under `key` (wrong key, corrupted data, or a body
/// longer than the keystream covers).
pub fn decrypt_chunk(key: &[u8; 32], data: &[u8]) -> (res: Result<Vec<u8>, CryptoError>)
    ensures
        data@.len() <= NONCE_LEN ==> res == Err::<Vec<u8>, CryptoError>(CryptoError::ChunkTooShort { len: data@.len() as usize }),
        res matches Ok(pt) ==> opens_to(key@, data@, pt@),
        res matches Ok(pt) ==> pt@.len() + SEAL_OVERHEAD == data@.len(),
        forall|pt: Seq<u8>| #[trigger] opens_to(key@, data@, pt) ==> (res matches Ok(out) && out@ == pt),
        res matches Err(e) ==> (data@.len() <= NONCE_LEN || e == CryptoError::DecryptionFailed),
{
    if data.len() <= NONCE_LEN {
        return Err(CryptoError::ChunkTooShort { len: data.len() });
    }
    let nonce = slice_subrange(data, 0, NONCE_LEN);
    let ct = slice_subrange(data, NONCE_LEN, data.len());
    if ct.len() >= TAG_LEN && !fits_keystream(ct.len() - TAG_LEN) {
        return Err(CryptoError::DecryptionFailed);
    }
    let res = xchacha_decrypt(key, nonce, ct);
    proof {
        assert forall|pt: Seq<u8>| #[trigger] opens_to(key@, data@, pt) implies (res matches Ok(out) && out@ == pt) by {
            let n = data@.subrange(0, NONCE_LEN as int);
            assert(data@ =~= n + data@.subrange(NONCE_LEN as int, data@.len() as int));
            assert(sealed_chunk(key@, n, pt) == n + xchacha20poly1305_seal(key@, n, pt));
            assert(xchacha20poly1305_seal(key@, nonce@, pt) =~= ct@);
        }
        if res is Ok {
            assert(sealed_chunk(key@, data@.subrange(0, NONCE_LEN as int), res->Ok_0@) =~= data@);
        }
    }
    match res {
        Ok(pt) => Ok(pt),
        Err(_) => Err(CryptoError::DecryptionFailed),
    }
}


// ---------------------------------------------------------------------------
// Chunking
// ---------------------------------------------------------------------------

/// Number of chunks `chunk_data` cuts `len` bytes into: `ceil(len / CHUNK_SIZE)`.
pub open spec fn chunk_count(len: nat) -> nat {
    ((len + CHUNK_SIZE - 1) / (CHUNK_SIZE as int)) as nat
}

/// Offset where chunk `i` of `len` bytes ends.
pub open spec fn chunk_end(len: nat, i: int) -> int {
    if (i + 1) * CHUNK_SIZE <= len {
        (i + 1) * CHUNK_SIZE
    } else {
        len as int
    }
}

/// The `i`-th chunk of `data`: bytes `i * CHUNK_SIZE` up to the next multiple of
/// `CHUNK_SIZE`, or to the end of the data.
pub open spec fn chunk_of(data: Seq<u8>, i: int) -> Seq<u8> {
    data.subrange(i * CHUNK_SIZE, chunk_end(data.len(), i))
}

/// The chunks of `data`, in order.
pub open spec fn chunks_of(data: Seq<u8>) -> Seq<Seq<u8>> {
    Seq::new(chunk_count(data.len()), |i: int| chunk_of(data, i))
}

/// Cuts `data` into consecutive pieces of `CHUNK_SIZE` bytes; the last piece
/// holds the rest. Empty data gives no chunks.
pub fn chunk_data(data: &[u8]) -> (chunks: Vec<&[u8]>)
    ensures
        chunks@.len() == chunk_count(data@.len()),
        forall|i: int| 0 <= i < chunks@.len() ==> (#[trigger] chunks@[i])@ == chunk_of(data@, i),
        chunks@.map_values(|c: &[u8]| c@) == chunks_of(data@),
{
    let mut chunks: Vec<&[u8]> = Vec::new();
    let mut start: usize = 0;
    while start < data.len()
        invariant
            start <= data@.len(),
            start == data@.len() || start == chunks@.len() * CHUNK_SIZE,
            start == chunk_end(data@.len(), chunks@.len() - 1) || chunks@.len() == 0 && start == 0,
            chunks@.len() == chunk_count(start as nat),
            forall|i: int| 0 <= i < chunks@.len() ==> (#[trigger] chunks@[i])@ == chunk_of(data@, i),
        decreases data@.len() - start,
    {
        let end: usize = if data.len() - start > CHUNK_SIZE {
            start + CHUNK_SIZE
        } else {
            data.len()
        };
        chunks.push(slice_subrange(data, start, end));
        start = end;
    }
    proof {
        assert(chunks@.map_values(|c: &[u8]| c@) =~= chunks_of(data@));
    }
    chunks
}

/// Chunks of `data`, concatenated in order, give back `data`; every chunk but
/// the last holds exactly `CHUNK_SIZE` bytes and none is empty.
pub proof fn lemma_chunks_reassemble(data: Seq<u8>)
    ensures
        chunks_of(data).flatten() == data,
        forall|i: int| 0 <= i < chunks_of(data).len() ==> (#[trigger] chunks_of(data)[i]).len() > 0,
        forall|i: int| 0 <= i < chunks_of(data).len() - 1 ==> (#[trigger] chunks_of(data)[i]).len() == CHUNK_SIZE,
{
    let n: nat = chunk_count(data.len());
    lemma_chunk_prefix(data, n as int);
    assert(chunks_of(data).subrange(0, n as int) =~= chunks_of(data));
}

/// The first `k` chunks, concatenated, are the first `min(k * CHUNK_SIZE, len)` bytes.
proof fn lemma_chunk_prefix(data: Seq<u8>, k: int)
    requires
        0 <= k <= chunk_count(data.len()),
    ensures
        chunks_of(data).subrange(0, k).flatten() == data.subrange(0, chunk_end(data.len(), k - 1)),
    decreases k,
{
    if k == 0 {
        assert(chunks_of(data).subrange(0, 0) =~= Seq::<Seq<u8>>::empty());
        assert(data.subrange(0, 0) =~= Seq::<u8>::empty());
    } else {
        lemma_chunk_prefix(data, k - 1);
        let prev = chunks_of(data).subrange(0, k - 1);
        assert(chunks_of(data).subrange(0, k) =~= prev.push(chunk_of(data, k - 1)));
        prev.lemma_flatten_push(chunk_of(data, k - 1));
        assert(data.subrange(0, chunk_end(data.len(), k - 1)) =~= data.subrange(0, chunk_end(data.len(), k - 2)) + chunk_of(data, k - 1));
    }
}

} // verus!
