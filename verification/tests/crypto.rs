use voidpost_core::crypto::chunk_data;
use voidpost_core::crypto::decrypt_chunk;
use voidpost_core::crypto::encrypt_chunk;
use voidpost_core::crypto::encrypt_chunk_with_nonce;
use voidpost_core::crypto::generate_key;
use voidpost_core::crypto::CHUNK_SIZE;
use voidpost_core::crypto::SEAL_OVERHEAD;
use voidpost_core::CryptoError;

#[test]
fn round_trip() {
    let key = generate_key();
    let msg = b"the void remembers nothing";
    let enc = encrypt_chunk(&key, msg).unwrap();
    let dec = decrypt_chunk(&key, &enc).unwrap();
    assert_eq!(&dec, msg);
}

#[test]
fn wrong_key_fails() {
    let k1 = generate_key();
    let k2 = generate_key();
    let enc = encrypt_chunk(&k1, b"secret").unwrap();
    assert!(decrypt_chunk(&k2, &enc).is_err());
}

#[test]
fn chunking() {
    let data = vec![0u8; CHUNK_SIZE * 2 + 100];
    let chunks = chunk_data(&data);
    assert_eq!(chunks.len(), 3);
    assert_eq!(chunks[0].len(), CHUNK_SIZE);
    assert_eq!(chunks[1].len(), CHUNK_SIZE);
    assert_eq!(chunks[2].len(), 100);
}

#[test]
fn empty_plaintext_round_trip() {
    let key = generate_key();
    let enc = encrypt_chunk(&key, &[]).unwrap();
    let dec = decrypt_chunk(&key, &enc).unwrap();
    assert!(dec.is_empty());
}

#[test]
fn exact_chunk_size_round_trip() {
    let key = generate_key();
    let data = vec![0xAB; CHUNK_SIZE];
    let enc = encrypt_chunk(&key, &data).unwrap();
    let dec = decrypt_chunk(&key, &enc).unwrap();
    assert_eq!(dec, data);
}

#[test]
fn decrypt_too_short_data_fails() {
    let key = generate_key();
    let short = vec![0u8; 10];
    assert!(decrypt_chunk(&key, &short).is_err());
}

#[test]
fn generated_keys_are_unique() {
    let k1 = generate_key();
    let k2 = generate_key();
    assert_ne!(k1, k2);
}

#[test]
fn sealed_chunk_layout() {
    let key = [7u8; 32];
    let nonce = [9u8; 24];
    let msg = b"layout";
    let sealed = encrypt_chunk_with_nonce(&key, &nonce, msg).unwrap();
    assert_eq!(sealed.len(), msg.len() + SEAL_OVERHEAD);
    assert_eq!(&sealed[..24], &nonce[..]);
    // The ciphertext is not the plaintext itself.
    assert_ne!(&sealed[24..24 + msg.len()], &msg[..]);
    assert_eq!(decrypt_chunk(&key, &sealed).unwrap(), msg.to_vec());
}

#[test]
fn sealing_is_deterministic_for_a_nonce() {
    let key = [1u8; 32];
    let nonce = [2u8; 24];
    let a = encrypt_chunk_with_nonce(&key, &nonce, b"same").unwrap();
    let b = encrypt_chunk_with_nonce(&key, &nonce, b"same").unwrap();
    assert_eq!(a, b);
}

#[test]
fn fresh_nonces_differ() {
    let key = generate_key();
    let a = encrypt_chunk(&key, b"same").unwrap();
    let b = encrypt_chunk(&key, b"same").unwrap();
    assert_ne!(&a[..24], &b[..24]);
}

#[test]
fn too_short_reports_length() {
    let key = [0u8; 32];
    assert_eq!(decrypt_chunk(&key, &[0u8; 10]), Err(CryptoError::ChunkTooShort { len: 10 }));
    assert_eq!(decrypt_chunk(&key, &[0u8; 24]), Err(CryptoError::ChunkTooShort { len: 24 }));
}

#[test]
fn tampered_chunk_fails_authentication() {
    let key = generate_key();
    let mut sealed = encrypt_chunk(&key, b"do not touch").unwrap();
    let last = sealed.len() - 1;
    sealed[last] ^= 1;
    assert_eq!(decrypt_chunk(&key, &sealed), Err(CryptoError::DecryptionFailed));
}

#[test]
fn nonce_only_plus_tag_is_empty_plaintext() {
    let key = [3u8; 32];
    let sealed = encrypt_chunk_with_nonce(&key, &[4u8; 24], &[]).unwrap();
    assert_eq!(sealed.len(), 40);
    assert_eq!(decrypt_chunk(&key, &sealed), Ok(Vec::new()));
}

#[test]
fn chunking_edge_cases() {
    assert_eq!(chunk_data(&[]).len(), 0);
    let exact = vec![1u8; CHUNK_SIZE];
    let chunks = chunk_data(&exact);
    assert_eq!(chunks.len(), 1);
    assert_eq!(chunks[0].len(), CHUNK_SIZE);
    let one_more = vec![1u8; CHUNK_SIZE + 1];
    let chunks = chunk_data(&one_more);
    assert_eq!(chunks.len(), 2);
    assert_eq!(chunks[1].len(), 1);
}

#[test]
fn chunks_reassemble_to_data() {
    let data: Vec<u8> = (0..(CHUNK_SIZE * 3 + 7)).map(|i| (i % 251) as u8).collect();
    let chunks = chunk_data(&data);
    let joined: Vec<u8> = chunks.concat();
    assert_eq!(joined, data);
}

#[test]
fn opened_plaintext_is_forty_bytes_shorter() {
    let key = [6u8; 32];
    let sealed = encrypt_chunk(&key, &[1u8; 100]).unwrap();
    assert_eq!(sealed.len(), 140);
    assert_eq!(decrypt_chunk(&key, &sealed).unwrap().len() + SEAL_OVERHEAD, sealed.len());
}
