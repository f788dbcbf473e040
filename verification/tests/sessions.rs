use std::collections::HashMap;

use voidpost_core::crypto::encrypt_chunk;
use voidpost_core::crypto::CHUNK_SIZE;
use voidpost_core::error::PublishError;
use voidpost_core::error::RetrieveError;
use voidpost_core::publish::PublishAction;
use voidpost_core::publish::PublishEvent;
use voidpost_core::publish::PublishSession;
use voidpost_core::retrieve::RetrieveAction;
use voidpost_core::retrieve::RetrieveEvent;
use voidpost_core::retrieve::RetrieveSession;
use voidpost_core::types::Manifest;
use voidpost_core::CryptoError;
use voidpost_core::Document;
use voidpost_core::SharePayload;

/// A stand-in for the manifest encoding: fields joined by newlines.
fn encode_manifest(m: &Manifest) -> Vec<u8> {
    format!("{}\n{}\n{}\n{}", m.version, m.filename, m.size, m.chunks).into_bytes()
}

fn parse_manifest(bytes: &[u8]) -> Option<Manifest> {
    let text = String::from_utf8(bytes.to_vec()).ok()?;
    let parts: Vec<&str> = text.split('\n').collect();
    if parts.len() != 4 {
        return None;
    }
    Some(Manifest {
        version: parts[0].parse().ok()?,
        filename: parts[1].to_string(),
        size: parts[2].parse().ok()?,
        chunks: parts[3].parse().ok()?,
    })
}

/// Publishes into an in-memory record store; returns the payload, the values
/// written per subkey and the schema's subkey count.
fn publish(data: &[u8], filename: &str) -> (SharePayload, HashMap<u32, Vec<u8>>, u16) {
    let (mut session, mut action) = PublishSession::start(data, filename);
    let mut store = HashMap::new();
    let mut subkeys = 0;
    loop {
        let event = match action {
            PublishAction::EncodeManifest(m) => PublishEvent::ManifestEncoded(encode_manifest(&m)),
            PublishAction::CreateRecord { subkey_count } => {
                subkeys = subkey_count;
                PublishEvent::RecordCreated("VLD0:test-record".to_string())
            }
            PublishAction::WriteSubkey { subkey, value } => {
                assert!(store.insert(subkey, value).is_none(), "subkey written twice");
                PublishEvent::SubkeyWritten
            }
            PublishAction::CloseRecord => PublishEvent::RecordClosed,
            PublishAction::Finish(payload) => return (payload, store, subkeys),
            PublishAction::Fail(e) => panic!("publish failed: {:?}", e),
        };
        action = session.step(event);
    }
}

fn retrieve(payload: &SharePayload, store: &HashMap<u32, Vec<u8>>) -> Result<Document, RetrieveError> {
    let (mut session, mut action) = RetrieveSession::new(payload);
    loop {
        let event = match action {
            RetrieveAction::OpenRecord => RetrieveEvent::RecordOpened,
            RetrieveAction::FetchSubkey(k) => RetrieveEvent::ValueFetched(store.get(&k).cloned()),
            RetrieveAction::ParseManifest(bytes) => RetrieveEvent::ManifestParsed(parse_manifest(&bytes)),
            RetrieveAction::CloseRecord => RetrieveEvent::RecordClosed,
            RetrieveAction::Finish(doc) => return Ok(doc),
            RetrieveAction::Fail(e) => return Err(e),
        };
        action = session.step(event);
    }
}

#[test]
fn publish_then_retrieve_round_trip() {
    let data: Vec<u8> = (0..(CHUNK_SIZE * 2 + 500)).map(|i| (i * 7 % 256) as u8).collect();
    let (payload, store, subkeys) = publish(&data, "notes.txt");
    assert_eq!(payload.record_key, "VLD0:test-record");
    assert_eq!(subkeys, 4);
    assert_eq!(store.len(), 4);
    let doc = retrieve(&payload, &store).unwrap();
    assert_eq!(doc.filename, "notes.txt");
    assert_eq!(doc.data, data);
}

#[test]
fn publish_empty_file_round_trip() {
    let (payload, store, subkeys) = publish(&[], "empty");
    assert_eq!(subkeys, 1);
    assert_eq!(store.len(), 1);
    let doc = retrieve(&payload, &store).unwrap();
    assert_eq!(doc.filename, "empty");
    assert!(doc.data.is_empty());
}

#[test]
fn share_link_carries_everything_needed() {
    let data = b"the void remembers nothing".to_vec();
    let (payload, store, _) = publish(&data, "void.txt");
    let link = payload.encode();
    let decoded = SharePayload::decode(&link).unwrap();
    let doc = retrieve(&decoded, &store).unwrap();
    assert_eq!(doc.data, data);
}

#[test]
fn missing_manifest_fails() {
    let (payload, mut store, _) = publish(b"abc", "a");
    store.remove(&0);
    assert_eq!(retrieve(&payload, &store).err(), Some(RetrieveError::ManifestMissing));
}

#[test]
fn missing_chunk_fails() {
    let data = vec![1u8; CHUNK_SIZE + 1];
    let (payload, mut store, _) = publish(&data, "a");
    store.remove(&2);
    assert_eq!(retrieve(&payload, &store).err(), Some(RetrieveError::ChunkMissing { subkey: 2 }));
}

#[test]
fn wrong_key_fails_to_open_manifest() {
    let (mut payload, store, _) = publish(b"abc", "a");
    payload.encryption_key[0] ^= 0xff;
    assert_eq!(
        retrieve(&payload, &store).err(),
        Some(RetrieveError::Crypto(CryptoError::DecryptionFailed))
    );
}

#[test]
fn unsupported_version_fails() {
    let (payload, mut store, _) = publish(b"abc", "a");
    let m = Manifest { version: 2, filename: "a".to_string(), size: 3, chunks: 1 };
    store.insert(0, encrypt_chunk(&payload.encryption_key, &encode_manifest(&m)).unwrap());
    assert_eq!(
        retrieve(&payload, &store).err(),
        Some(RetrieveError::UnsupportedVersion { version: 2 })
    );
}

#[test]
fn size_mismatch_fails() {
    let (payload, mut store, _) = publish(b"abc", "a");
    let m = Manifest { version: 1, filename: "a".to_string(), size: 4, chunks: 1 };
    store.insert(0, encrypt_chunk(&payload.encryption_key, &encode_manifest(&m)).unwrap());
    assert_eq!(
        retrieve(&payload, &store).err(),
        Some(RetrieveError::SizeMismatch { expected: 4, actual: 3 })
    );
}

#[test]
fn unparsable_manifest_fails() {
    let (payload, mut store, _) = publish(b"abc", "a");
    store.insert(0, encrypt_chunk(&payload.encryption_key, b"garbage").unwrap());
    assert_eq!(retrieve(&payload, &store).err(), Some(RetrieveError::ManifestInvalid));
}

#[test]
fn truncated_chunk_fails() {
    let (payload, mut store, _) = publish(b"abc", "a");
    store.insert(1, vec![0u8; 5]);
    assert_eq!(
        retrieve(&payload, &store).err(),
        Some(RetrieveError::Crypto(CryptoError::ChunkTooShort { len: 5 }))
    );
}

#[test]
fn unexpected_events_stop_sessions() {
    let (mut session, _) = PublishSession::start(b"x", "x");
    assert!(matches!(
        session.step(PublishEvent::RecordClosed),
        PublishAction::Fail(PublishError::UnexpectedEvent)
    ));
    let payload = SharePayload { record_key: "k".to_string(), encryption_key: [0u8; 32] };
    let (mut session, _) = RetrieveSession::new(&payload);
    assert!(matches!(
        session.step(RetrieveEvent::RecordClosed),
        RetrieveAction::Fail(RetrieveError::UnexpectedEvent)
    ));
}

#[test]
fn publish_with_key_writes_in_order() {
    let data = vec![9u8; CHUNK_SIZE * 2];
    let key = [8u8; 32];
    let (mut session, action) = PublishSession::start_with_key(key, &data, "f");
    let manifest = match action {
        PublishAction::EncodeManifest(m) => m,
        _ => panic!("expected manifest encoding"),
    };
    assert_eq!(manifest.version, 1);
    assert_eq!(manifest.size, (CHUNK_SIZE * 2) as u64);
    assert_eq!(manifest.chunks, 2);
    let mut order = Vec::new();
    let mut action = session.step(PublishEvent::ManifestEncoded(encode_manifest(&manifest)));
    assert!(matches!(action, PublishAction::CreateRecord { subkey_count: 3 }));
    action = session.step(PublishEvent::RecordCreated("r".to_string()));
    while let PublishAction::WriteSubkey { subkey, .. } = action {
        order.push(subkey);
        action = session.step(PublishEvent::SubkeyWritten);
    }
    assert_eq!(order, vec![0, 1, 2]);
    assert!(matches!(action, PublishAction::CloseRecord));
    match session.step(PublishEvent::RecordClosed) {
        PublishAction::Finish(p) => {
            assert_eq!(p.encryption_key, key);
            assert_eq!(p.record_key, "r");
        }
        _ => panic!("expected finish"),
    }
}
