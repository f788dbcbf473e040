//! Publish: the decisions of putting a document on the DHT.
//!
//! `PublishSession::start` draws a key, cuts the file into chunks and seals
//! each; the session then asks its caller to encode the manifest, create a
//! record with one subkey per chunk plus one, write the sealed manifest to
//! subkey 0 and the sealed chunks to subkeys `1..=N`, and close the record.
//! It ends with the share payload. A file with more chunks than a record's
//! schema can hold subkeys for is refused before any record is created.
use vstd::prelude::*;
use vstd::slice::slice_to_vec;

use crate::crypto::CHUNK_SIZE;
use crate::crypto::SEAL_OVERHEAD;
use crate::crypto::chunk_count;
use crate::crypto::chunk_data;
use crate::crypto::chunk_of;
use crate::crypto::chunks_of;
use crate::crypto::cipher_accepts;
use crate::crypto::encrypt_chunk;
use crate::crypto::generate_key;
use crate::crypto::opens_to;
use crate::error::CryptoError;
use crate::error::PublishError;
use crate::link::SharePayload;
use crate::types::MANIFEST_VERSION;
use crate::types::Manifest;

verus! {

/// Where a publication stands.
#[derive(Debug, Clone, Copy, PartialEq, Eq, Structural)]
pub enum PublishPhase {
    /// Waiting for the manifest's encoding.
    EncodingManifest,
    /// Waiting for the record to be created.
    CreatingRecord,
    /// Waiting for subkey 0 (the manifest) to be written.
    WritingManifest,
    /// Waiting for the current chunk's subkey to be written.
    WritingChunks,
    /// Waiting for the record to be closed.
    Closing,
    /// Finished or failed; no more events are expected.
    Done,
}

/// What the caller reports back.
pub enum PublishEvent {
    /// The manifest encoded as bytes.
    ManifestEncoded(Vec<u8>),
    /// The record was created; this is its key's text.
    RecordCreated(String),
    /// The requested subkey was written.
    SubkeyWritten,
    /// The record was closed.
    RecordClosed,
}

/// What the caller is asked to do next.
pub enum PublishAction {
    /// Encode this manifest as bytes.
    EncodeManifest(Manifest),
    /// Create a record whose schema has this many subkeys.
    CreateRecord { subkey_count: u16 },
    /// Write this value to this subkey.
    WriteSubkey { subkey: u32, value: Vec<u8> },
    /// Close the record.
    CloseRecord,
    /// Publication is complete; this payload is the share link.
    Finish(SharePayload),
    /// Publication failed.
    Fail(PublishError),
}

/// A publication in progress.
pub struct PublishSession {
    /// The document's encryption key.
    pub key: [u8; 32],
    pub phase: PublishPhase,
    /// The file being published.
    pub file: Ghost<Seq<u8>>,
    /// The manifest's encoding, once the caller has supplied it.
    pub manifest_json: Ghost<Seq<u8>>,
    /// The file's chunks, each sealed under `key`.
    pub sealed_chunks: Vec<Vec<u8>>,
    /// The manifest's encoding sealed under `key`.
    pub sealed_manifest: Vec<u8>,
    /// The created record's key text.
    pub record_key: String,
    /// Number of chunks whose write has been acknowledged.
    pub written: usize,
}

/// `m` is the manifest of `file` published as `filename`.
pub open spec fn describes(m: Manifest, filename: Seq<char>, file: Seq<u8>) -> bool {
    &&& m.version == MANIFEST_VERSION
    &&& m.filename@ == filename
    &&& m.size == file.len()
    &&& m.chunks == chunk_count(file.len())
}

/// Most subkeys a record's schema can hold.
pub const MAX_SUBKEYS: u16 = 0xFFFF;

/// A record can hold the manifest and `chunks` chunks, one subkey each.
pub open spec fn record_holds(chunks: nat) -> bool {
    chunks + 1 <= MAX_SUBKEYS
}

/// `value` is what publishing `file` with `key` writes to `subkey`: subkey 0
/// opens to the manifest's encoding, subkey `i` (from 1) to chunk `i - 1`.
pub open spec fn published_value(key: Seq<u8>, file: Seq<u8>, manifest_json: Seq<u8>, subkey: int, value: Seq<u8>) -> bool {
    if subkey == 0 {
        opens_to(key, value, manifest_json)
    } else {
        &&& 1 <= subkey <= chunk_count(file.len())
        &&& opens_to(key, value, chunks_of(file)[subkey - 1])
    }
}

/// `post` has stopped with `action` reporting `err`.
pub open spec fn publish_stops_with(post: PublishSession, action: PublishAction, err: PublishError) -> bool {
    &&& post.phase == PublishPhase::Done
    &&& action == PublishAction::Fail(err)
}

/// What chunk writing does once `post.written` chunks are written: write the
/// next one to its subkey, or close the record when all are written.
pub open spec fn next_write(post: PublishSession, action: PublishAction) -> bool {
    if post.written == post.sealed_chunks@.len() {
        &&& post.phase == PublishPhase::Closing
        &&& action == PublishAction::CloseRecord
    } else {
        &&& post.phase == PublishPhase::WritingChunks
        &&& action matches PublishAction::WriteSubkey { subkey, value }
        &&& subkey == post.written + 1
        &&& value@ == post.sealed_chunks@[post.written as int]@
    }
}

/// One step of a publication: from `pre`, on `event`, the session becomes
/// `post` and asks for `action`.
pub open spec fn publish_step(pre: PublishSession, event: PublishEvent, post: PublishSession, action: PublishAction) -> bool {
    &&& post.key == pre.key
    &&& post.file == pre.file
    &&& post.sealed_chunks@ == pre.sealed_chunks@
    &&& match (pre.phase, event) {
        (PublishPhase::EncodingManifest, PublishEvent::ManifestEncoded(json)) => if !cipher_accepts(json@.len()) {
            publish_stops_with(post, action, PublishError::Crypto(CryptoError::EncryptionFailed))
        } else if record_holds(pre.sealed_chunks@.len()) {
            &&& post.manifest_json@ == json@
            &&& post.phase == PublishPhase::CreatingRecord
            &&& opens_to(pre.key@, post.sealed_manifest@, json@)
            &&& action matches PublishAction::CreateRecord { subkey_count }
            &&& subkey_count == pre.sealed_chunks@.len() + 1
        } else {
            publish_stops_with(post, action, (PublishError::TooManyChunks { chunks: pre.sealed_chunks@.len() as usize }))
        },
        (PublishPhase::CreatingRecord, PublishEvent::RecordCreated(record_key)) => {
            &&& post.record_key == record_key
            &&& post.manifest_json == pre.manifest_json
            &&& post.sealed_manifest@ == pre.sealed_manifest@
            &&& post.phase == PublishPhase::WritingManifest
            &&& action matches PublishAction::WriteSubkey { subkey, value }
            &&& subkey == 0
            &&& value@ == pre.sealed_manifest@
        },
        (PublishPhase::WritingManifest, PublishEvent::SubkeyWritten) => {
            &&& post.record_key == pre.record_key
            &&& post.manifest_json == pre.manifest_json
            &&& post.written == 0
            &&& next_write(post, action)
        },
        (PublishPhase::WritingChunks, PublishEvent::SubkeyWritten) => {
            &&& post.record_key == pre.record_key
            &&& post.manifest_json == pre.manifest_json
            &&& post.written == pre.written + 1
            &&& next_write(post, action)
        },
        (PublishPhase::Closing, PublishEvent::RecordClosed) => {
            &&& post.phase == PublishPhase::Done
            &&& action matches PublishAction::Finish(payload)
            &&& payload.record_key == pre.record_key
            &&& payload.encryption_key == pre.key
        },
        _ => publish_stops_with(post, action, PublishError::UnexpectedEvent),
    }
}

impl PublishSession {
    /// The sealed chunks are the file's chunks sealed under the key, and the
    /// sealed manifest opens to the manifest's encoding once it is known.
    pub open spec fn wf(self) -> bool {
        &&& self.sealed_ok()
        &&& self.phase == PublishPhase::WritingChunks ==> self.written < self.sealed_chunks@.len()
    }

    /// Everything `wf` says but the bound on `written` while writing chunks.
    pub open spec fn sealed_ok(self) -> bool {
        &&& chunk_count(self.file@.len()) < u32::MAX
        &&& self.sealed_chunks@.len() == chunk_count(self.file@.len())
        &&& forall|i: int|
            0 <= i < self.sealed_chunks@.len() ==> opens_to(
                self.key@,
                #[trigger] self.sealed_chunks@[i]@,
                chunks_of(self.file@)[i],
            )
        &&& self.written <= self.sealed_chunks@.len()
        &&& (self.phase == PublishPhase::CreatingRecord || self.phase == PublishPhase::WritingManifest
            || self.phase == PublishPhase::WritingChunks || self.phase == PublishPhase::Closing)
            ==> opens_to(self.key@, self.sealed_manifest@, self.manifest_json@)
    }

    /// Starts publishing `file_data` as `filename` under a fresh random key.
    pub fn start(file_data: &[u8], filename: &str) -> (res: (PublishSession, PublishAction))
        requires
            chunk_count(file_data@.len()) < u32::MAX,
        ensures
            res.0.wf(),
            res.0.phase == PublishPhase::EncodingManifest,
            res.0.file@ == file_data@,
            res.1 matches PublishAction::EncodeManifest(m) && describes(m, filename@, file_data@),
    {
        let key = generate_key();
        Self::start_with_key(key, file_data, filename)
    }

    /// Starts publishing `file_data` as `filename` under `key`: cuts the file
    /// into chunks, seals each, and asks for the manifest to be encoded.
    pub fn start_with_key(key: [u8; 32], file_data: &[u8], filename: &str) -> (res: (PublishSession, PublishAction))
        requires
            chunk_count(file_data@.len()) < u32::MAX,
        ensures
            res.0.wf(),
            res.0.key == key,
            res.0.phase == PublishPhase::EncodingManifest,
            res.0.file@ == file_data@,
            res.1 matches PublishAction::EncodeManifest(m) && describes(m, filename@, file_data@),
    {
        let chunks = chunk_data(file_data);
        let mut sealed_chunks: Vec<Vec<u8>> = Vec::new();
        let mut i: usize = 0;
        while i < chunks.len()
            invariant
                i <= chunks@.len(),
                chunks@.len() == chunk_count(file_data@.len()),
                forall|j: int| 0 <= j < chunks@.len() ==> (#[trigger] chunks@[j])@ == chunk_of(file_data@, j),
                sealed_chunks@.len() == i,
                forall|j: int|
                    0 <= j < i ==> opens_to(key@, #[trigger] sealed_chunks@[j]@, chunks_of(file_data@)[j]),
            decreases chunks@.len() - i,
        {
            let chunk = chunks[i];
            proof {
                lemma_chunk_len(file_data@, i as int);
            }
            match encrypt_chunk(&key, chunk) {
                Ok(sealed) => {
                    sealed_chunks.push(sealed);
                },
                Err(_) => {
                    // A chunk holds at most CHUNK_SIZE bytes, which the cipher always accepts.
                    assert(false);
                },
            }
            i = i + 1;
        }
        let manifest = Manifest {
            version: MANIFEST_VERSION,
            filename: filename.to_owned(),
            size: file_data.len() as u64,
            chunks: chunks.len() as u32,
        };
        let session = PublishSession {
            key,
            phase: PublishPhase::EncodingManifest,
            file: Ghost(file_data@),
            manifest_json: Ghost(Seq::empty()),
            sealed_chunks,
            sealed_manifest: Vec::new(),
            record_key: String::new(),
            written: 0,
        };
        (session, PublishAction::EncodeManifest(manifest))
    }

    fn fail(&mut self, err: PublishError) -> (action: PublishAction)
        requires
            old(self).wf(),
        ensures
            final(self).wf(),
            final(self).key == old(self).key,
            final(self).file == old(self).file,
            final(self).sealed_chunks == old(self).sealed_chunks,
            publish_stops_with(*final(self), action, err),
    {
        self.phase = PublishPhase::Done;
        PublishAction::Fail(err)
    }

    /// Asks for the next chunk's write, or for closing once all are written.
    fn next_write_action(&mut self) -> (action: PublishAction)
        requires
            old(self).sealed_ok(),
            old(self).phase != PublishPhase::EncodingManifest,
            old(self).phase != PublishPhase::Done,
        ensures
            final(self).wf(),
            final(self).key == old(self).key,
            final(self).file == old(self).file,
            final(self).manifest_json == old(self).manifest_json,
            final(self).sealed_chunks == old(self).sealed_chunks,
            final(self).sealed_manifest == old(self).sealed_manifest,
            final(self).record_key == old(self).record_key,
            final(self).written == old(self).written,
            next_write(*final(self), action),
    {
        if self.written == self.sealed_chunks.len() {
            self.phase = PublishPhase::Closing;
            PublishAction::CloseRecord
        } else {
            self.phase = PublishPhase::WritingChunks;
            let value = slice_to_vec(self.sealed_chunks[self.written].as_slice());
            PublishAction::WriteSubkey { subkey: self.written as u32 + 1, value }
        }
    }

    /// Takes in what happened and decides what comes next.
    pub fn step(&mut self, event: PublishEvent) -> (action: PublishAction)
        requires
            old(self).wf(),
            event matches PublishEvent::ManifestEncoded(json) ==> json@.len() + SEAL_OVERHEAD <= isize::MAX,
        ensures
            final(self).wf(),
            publish_step(*old(self), event, *final(self), action),
    {
        match (self.phase, event) {
            (PublishPhase::EncodingManifest, PublishEvent::ManifestEncoded(json)) => {
                match encrypt_chunk(&self.key, json.as_slice()) {
                    Ok(sealed) => {
                        let chunks: usize = self.sealed_chunks.len();
                        if chunks >= MAX_SUBKEYS as usize {
                            return self.fail(PublishError::TooManyChunks { chunks });
                        }
                        self.sealed_manifest = sealed;
                        self.manifest_json = Ghost(json@);
                        self.phase = PublishPhase::CreatingRecord;
                        PublishAction::CreateRecord { subkey_count: chunks as u16 + 1 }
                    },
                    Err(e) => self.fail(PublishError::Crypto(e)),
                }
            },
            (PublishPhase::CreatingRecord, PublishEvent::RecordCreated(record_key)) => {
                self.record_key = record_key;
                self.phase = PublishPhase::WritingManifest;
                let value = slice_to_vec(self.sealed_manifest.as_slice());
                PublishAction::WriteSubkey { subkey: 0, value }
            },
            (PublishPhase::WritingManifest, PublishEvent::SubkeyWritten) => {
                self.written = 0;
                self.next_write_action()
            },
            (PublishPhase::WritingChunks, PublishEvent::SubkeyWritten) => {
                self.written = self.written + 1;
                self.next_write_action()
            },
            (PublishPhase::Closing, PublishEvent::RecordClosed) => {
                self.phase = PublishPhase::Done;
                PublishAction::Finish(SharePayload { record_key: self.record_key.clone(), encryption_key: self.key })
            },
            _ => self.fail(PublishError::UnexpectedEvent),
        }
    }
}

/// The record is sized to the file: stepping a publication that waits for
/// its manifest's encoding, on an encoding the cipher accepts, asks for a
/// record with one subkey per chunk plus one for the manifest whenever that
/// count fits a schema's 16-bit subkey count, and refuses the file with
/// `TooManyChunks` exactly when it does not.
pub proof fn lemma_record_sized_to_file(pre: PublishSession, event: PublishEvent, post: PublishSession, action: PublishAction)
    requires
        pre.wf(),
        pre.phase == PublishPhase::EncodingManifest,
        event matches PublishEvent::ManifestEncoded(json) && cipher_accepts(json@.len()),
        publish_step(pre, event, post, action),
    ensures
        chunk_count(pre.file@.len()) + 1 <= u16::MAX ==> (action matches PublishAction::CreateRecord { subkey_count }
            && subkey_count == chunk_count(pre.file@.len()) + 1),
        chunk_count(pre.file@.len()) + 1 <= u16::MAX ==> post.phase == PublishPhase::CreatingRecord,
        chunk_count(pre.file@.len()) + 1 > u16::MAX ==> action == PublishAction::Fail(
            PublishError::TooManyChunks { chunks: chunk_count(pre.file@.len()) as usize },
        ),
{
}

/// A chunk holds between 1 and `CHUNK_SIZE` bytes.
proof fn lemma_chunk_len(data: Seq<u8>, i: int)
    requires
        0 <= i < chunk_count(data.len()),
    ensures
        0 < chunk_of(data, i).len() <= CHUNK_SIZE,
        chunks_of(data)[i] == chunk_of(data, i),
{
}

/// Every write a publication asks for stores a published value: subkey 0 gets
/// the sealed manifest, subkey `i` (from 1) the sealed chunk `i - 1`.
pub proof fn lemma_writes_are_published(pre: PublishSession, event: PublishEvent, post: PublishSession, action: PublishAction)
    requires
        pre.wf(),
        post.wf(),
        publish_step(pre, event, post, action),
    ensures
        action matches PublishAction::WriteSubkey { subkey, value } ==> published_value(
            post.key@,
            post.file@,
            post.manifest_json@,
            subkey as int,
            value@,
        ),
{
}


/// `action` writes to subkey `s` a value publishing `file` with `key` writes there.
pub open spec fn writes_published(action: PublishAction, s: int, key: Seq<u8>, file: Seq<u8>, manifest_json: Seq<u8>) -> bool {
    &&& action matches PublishAction::WriteSubkey { subkey, value }
    &&& subkey == s
    &&& published_value(key, file, manifest_json, s, value@)
}

/// `action` ends the publication with the payload of `record_key` and `key`.
pub open spec fn finishes_with(action: PublishAction, record_key: String, key: [u8; 32]) -> bool {
    &&& action matches PublishAction::Finish(payload)
    &&& payload.record_key == record_key
    &&& payload.encryption_key == key
}

/// `states`, `events` and `actions` are a run of a publication: stepping
/// `states[k]` on `events[k]` gives `states[k + 1]` and asks for `actions[k]`.
pub open spec fn is_publish_run(states: Seq<PublishSession>, events: Seq<PublishEvent>, actions: Seq<PublishAction>) -> bool {
    &&& states.len() == events.len() + 1
    &&& actions.len() == events.len()
    &&& forall|k: int|
        #![trigger states[k]]
        0 <= k < events.len() ==> states[k].wf() && publish_step(states[k], events[k], states[k + 1], actions[k])
}

/// The events of a publication in which every request succeeds: the
/// manifest is encoded as `manifest_json`, the record is created as
/// `record_key`, each of the `chunks + 1` writes is acknowledged, and the
/// record is closed.
pub open spec fn all_succeed(manifest_json: Seq<u8>, record_key: String, chunks: nat, events: Seq<PublishEvent>) -> bool {
    &&& events.len() == chunks + 4
    &&& events[0] matches PublishEvent::ManifestEncoded(json) && json@ == manifest_json
    &&& events[1] == PublishEvent::RecordCreated(record_key)
    &&& forall|k: int| 2 <= k < chunks + 3 ==> #[trigger] events[k] == PublishEvent::SubkeyWritten
    &&& events[chunks + 3int] == PublishEvent::RecordClosed
}

/// A publication in which every request succeeds, of a file whose chunks and
/// manifest a record can hold, creates a record with one subkey per chunk plus one, writes the sealed manifest to subkey 0 and the
/// sealed chunks, in order, to subkeys `1..=N`, closes the record, and ends
/// with the share payload of the record and the key.
pub proof fn lemma_publish_writes_every_subkey(
    states: Seq<PublishSession>,
    events: Seq<PublishEvent>,
    actions: Seq<PublishAction>,
    manifest_json: Seq<u8>,
    record_key: String,
)
    requires
        is_publish_run(states, events, actions),
        states[0].phase == PublishPhase::EncodingManifest,
        cipher_accepts(manifest_json.len()),
        record_holds(chunk_count(states[0].file@.len())),
        all_succeed(manifest_json, record_key, chunk_count(states[0].file@.len()), events),
    ensures
        actions[0] matches PublishAction::CreateRecord { subkey_count }
            && subkey_count == chunk_count(states[0].file@.len()) + 1,
        forall|s: int|
            0 <= s <= chunk_count(states[0].file@.len()) ==> writes_published(
                #[trigger] actions[1 + s],
                s,
                states[0].key@,
                states[0].file@,
                manifest_json,
            ),
        actions[chunk_count(states[0].file@.len()) + 2int] == PublishAction::CloseRecord,
        finishes_with(actions[chunk_count(states[0].file@.len()) + 3int], record_key, states[0].key),
{
    let n: int = chunk_count(states[0].file@.len()) as int;
    assert(states[0].wf() && publish_step(states[0], events[0], states[1], actions[0]));
    assert(states[1].wf() && publish_step(states[1], events[1], states[2], actions[1]));
    lemma_writes_are_published(states[1], events[1], states[2], actions[1]);
    assert forall|s: int| 0 <= s <= n implies writes_published(
        #[trigger] actions[1 + s],
        s,
        states[0].key@,
        states[0].file@,
        manifest_json,
    ) by {
        lemma_publish_progress(states, events, actions, manifest_json, record_key, s);
    }
    lemma_publish_progress(states, events, actions, manifest_json, record_key, n);
    assert(states[n + 3].wf() && publish_step(states[n + 3], events[n + 3], states[n + 4], actions[n + 3]));
}

/// After the write of subkey `s` was asked for, the run stands with the key,
/// file, manifest encoding and record key of the start, the write asked for
/// is subkey `s`'s published value, and the next request follows.
proof fn lemma_publish_progress(
    states: Seq<PublishSession>,
    events: Seq<PublishEvent>,
    actions: Seq<PublishAction>,
    manifest_json: Seq<u8>,
    record_key: String,
    s: int,
)
    requires
        is_publish_run(states, events, actions),
        states[0].phase == PublishPhase::EncodingManifest,
        cipher_accepts(manifest_json.len()),
        record_holds(chunk_count(states[0].file@.len())),
        all_succeed(manifest_json, record_key, chunk_count(states[0].file@.len()), events),
        0 <= s <= chunk_count(states[0].file@.len()),
    ensures
        states[2 + s].key == states[0].key,
        states[2 + s].file == states[0].file,
        states[2 + s].manifest_json@ == manifest_json,
        states[2 + s].record_key == record_key,
        states[2 + s].sealed_chunks@ == states[0].sealed_chunks@,
        s == 0 ==> states[2 + s].phase == PublishPhase::WritingManifest,
        s > 0 ==> states[2 + s].written == s - 1,
        0 < s < chunk_count(states[0].file@.len()) ==> states[2 + s].phase == PublishPhase::WritingChunks,
        s > 0 && s == chunk_count(states[0].file@.len()) ==> states[2 + s].phase == PublishPhase::WritingChunks,
        writes_published(actions[1 + s], s, states[0].key@, states[0].file@, manifest_json),
        s == chunk_count(states[0].file@.len()) ==> actions[2 + s] == PublishAction::CloseRecord,
        s == chunk_count(states[0].file@.len()) ==> states[3 + s].phase == PublishPhase::Closing,
    decreases s,
{
    let n: int = chunk_count(states[0].file@.len()) as int;
    assert(states[0].wf() && publish_step(states[0], events[0], states[1], actions[0]));
    assert(states[1].wf() && publish_step(states[1], events[1], states[2], actions[1]));
    if s > 0 {
        lemma_publish_progress(states, events, actions, manifest_json, record_key, s - 1);
    }
    assert(states[1 + s].wf() && publish_step(states[1 + s], events[1 + s], states[2 + s], actions[1 + s]));
    assert(states[2 + s].wf() && publish_step(states[2 + s], events[2 + s], states[3 + s], actions[2 + s]));
    lemma_writes_are_published(states[1 + s], events[1 + s], states[2 + s], actions[1 + s]);
}

} // verus!
