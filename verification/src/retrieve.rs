//! Retrieve: the decisions of pulling a document back out of the DHT.
//!
//! A `RetrieveSession` tells its caller what to do next (open the record,
//! fetch a subkey, parse the opened manifest, close the record) and is told
//! what happened. It opens the manifest in subkey 0, checks its version,
//! opens chunks `1..=N` in order and appends them, and after the record is
//! closed checks the size the manifest promised.
use vstd::prelude::*;

use crate::crypto::NONCE_LEN;
use crate::crypto::chunk_count;
use crate::crypto::chunks_of;
use crate::crypto::cipher_accepts;
use crate::crypto::decrypt_chunk;
use crate::crypto::lemma_chunks_reassemble;
use crate::crypto::opens_to;
use crate::error::CryptoError;
use crate::error::RetrieveError;
use crate::link::SharePayload;
use crate::publish::PublishAction;
use crate::publish::PublishEvent;
use crate::publish::PublishPhase;
use crate::publish::PublishSession;
use crate::publish::all_succeed;
use crate::publish::describes;
use crate::publish::is_publish_run;
use crate::publish::lemma_publish_writes_every_subkey;
use crate::publish::published_value;
use crate::publish::record_holds;
use crate::publish::writes_published;
use crate::types::Document;
use crate::types::MANIFEST_VERSION;
use crate::types::Manifest;

verus! {

/// Where a retrieval stands.
#[derive(Debug, Clone, Copy, PartialEq, Eq, Structural)]
pub enum RetrievePhase {
    /// Waiting for the record to be opened.
    Opening,
    /// Waiting for the value of subkey 0.
    ReadingManifest,
    /// Waiting for the opened manifest to be parsed.
    ParsingManifest,
    /// Waiting for the value of the next chunk's subkey.
    ReadingChunks,
    /// Waiting for the record to be closed.
    Closing,
    /// Finished or failed; no more events are expected.
    Done,
}

/// What the caller reports back.
pub enum RetrieveEvent {
    /// The record was opened (read-only).
    RecordOpened,
    /// The value of the requested subkey, `None` when it is empty.
    ValueFetched(Option<Vec<u8>>),
    /// The parsed manifest, `None` when the bytes are not a manifest.
    ManifestParsed(Option<Manifest>),
    /// The record was closed.
    RecordClosed,
}

/// What the caller is asked to do next.
pub enum RetrieveAction {
    /// Open the record read-only.
    OpenRecord,
    /// Fetch the value of this subkey.
    FetchSubkey(u32),
    /// Parse these bytes as a manifest.
    ParseManifest(Vec<u8>),
    /// Close the record.
    CloseRecord,
    /// The document is complete.
    Finish(Document),
    /// Retrieval failed.
    Fail(RetrieveError),
}

/// A retrieval in progress.
pub struct RetrieveSession {
    /// The key that opens the document's manifest and chunks.
    pub key: [u8; 32],
    pub phase: RetrievePhase,
    /// The accepted manifest, from the `ReadingChunks` phase on.
    pub manifest: Manifest,
    /// Number of chunks read and appended so far.
    pub read: u32,
    /// The chunks read so far, concatenated.
    pub plaintext: Vec<u8>,
}

/// `post` has stopped with `action` reporting `err`.
pub open spec fn stops_with(post: RetrieveSession, action: RetrieveAction, err: RetrieveError) -> bool {
    &&& post.phase == RetrievePhase::Done
    &&& action == RetrieveAction::Fail(err)
}

/// Opening a sealed `value` under `key`, as `decrypt_chunk` does, fails: the
/// value is too short, or no plaintext opens it. The retrieval then stops
/// with that error.
pub open spec fn open_fails(key: Seq<u8>, value: Seq<u8>, post: RetrieveSession, action: RetrieveAction) -> bool {
    if value.len() <= NONCE_LEN {
        stops_with(post, action, RetrieveError::Crypto(CryptoError::ChunkTooShort { len: value.len() as usize }))
    } else {
        &&& forall|pt: Seq<u8>| !opens_to(key, value, pt)
        &&& stops_with(post, action, RetrieveError::Crypto(CryptoError::DecryptionFailed))
    }
}

/// The sealed manifest `value` opens to some plaintext: the session asks for
/// that plaintext to be parsed.
pub open spec fn manifest_opened(key: Seq<u8>, value: Seq<u8>, post: RetrieveSession, action: RetrieveAction) -> bool {
    forall|json: Seq<u8>|
        #[trigger] opens_to(key, value, json) ==> {
            &&& post.phase == RetrievePhase::ParsingManifest
            &&& action matches RetrieveAction::ParseManifest(bytes)
            &&& bytes@ == json
        }
}

/// The sealed chunk `value` opens to some plaintext: the session appends it
/// and moves on to the next chunk.
pub open spec fn chunk_opened(
    key: Seq<u8>,
    value: Seq<u8>,
    pre: RetrieveSession,
    post: RetrieveSession,
    action: RetrieveAction,
) -> bool {
    forall|chunk: Seq<u8>|
        #[trigger] opens_to(key, value, chunk) ==> {
            &&& post.manifest == pre.manifest
            &&& post.read == pre.read + 1
            &&& post.plaintext@ == pre.plaintext@ + chunk
            &&& next_read(post, action)
        }
}

/// What opening `value` leads to: `opened` when some plaintext opens it, the
/// crypto error otherwise.
pub open spec fn after_open(key: Seq<u8>, value: Seq<u8>, post: RetrieveSession, action: RetrieveAction, opened: bool) -> bool {
    if value.len() > NONCE_LEN && exists|pt: Seq<u8>| opens_to(key, value, pt) {
        opened
    } else {
        open_fails(key, value, post, action)
    }
}

/// What chunk reading does after `read` chunks: ask for the next subkey, or
/// close the record when all are read.
pub open spec fn next_read(post: RetrieveSession, action: RetrieveAction) -> bool {
    if post.read == post.manifest.chunks {
        &&& post.phase == RetrievePhase::Closing
        &&& action == RetrieveAction::CloseRecord
    } else {
        &&& post.phase == RetrievePhase::ReadingChunks
        &&& action == RetrieveAction::FetchSubkey((post.read + 1) as u32)
    }
}

/// One step of a retrieval: from `pre`, on `event`, the session becomes `post`
/// and asks for `action`.
pub open spec fn retrieve_step(
    pre: RetrieveSession,
    event: RetrieveEvent,
    post: RetrieveSession,
    action: RetrieveAction,
) -> bool {
    &&& post.key == pre.key
    &&& match (pre.phase, event) {
        (RetrievePhase::Opening, RetrieveEvent::RecordOpened) => {
            &&& post.phase == RetrievePhase::ReadingManifest
            &&& action == RetrieveAction::FetchSubkey(0)
        },
        (RetrievePhase::ReadingManifest, RetrieveEvent::ValueFetched(value)) => match value {
            None => stops_with(post, action, RetrieveError::ManifestMissing),
            Some(sealed) => after_open(pre.key@, sealed@, post, action, manifest_opened(pre.key@, sealed@, post, action)),
        },
        (RetrievePhase::ParsingManifest, RetrieveEvent::ManifestParsed(parsed)) => match parsed {
            None => stops_with(post, action, RetrieveError::ManifestInvalid),
            Some(m) => if m.version != MANIFEST_VERSION {
                stops_with(post, action, RetrieveError::UnsupportedVersion { version: m.version })
            } else {
                &&& post.manifest == m
                &&& post.read == 0
                &&& post.plaintext@ == Seq::<u8>::empty()
                &&& next_read(post, action)
            },
        },
        (RetrievePhase::ReadingChunks, RetrieveEvent::ValueFetched(value)) => match value {
            None => stops_with(post, action, RetrieveError::ChunkMissing { subkey: (pre.read + 1) as u32 }),
            Some(sealed) => after_open(pre.key@, sealed@, post, action, chunk_opened(pre.key@, sealed@, pre, post, action)),
        },
        (RetrievePhase::Closing, RetrieveEvent::RecordClosed) => if pre.plaintext@.len() == pre.manifest.size {
            &&& post.phase == RetrievePhase::Done
            &&& action matches RetrieveAction::Finish(doc)
            &&& doc.filename == pre.manifest.filename
            &&& doc.data@ == pre.plaintext@
        } else {
            stops_with(
                post,
                action,
                RetrieveError::SizeMismatch { expected: pre.manifest.size, actual: pre.plaintext@.len() as usize },
            )
        },
        _ => stops_with(post, action, RetrieveError::UnexpectedEvent),
    }
}


/// The plaintext a sealed `value` opens to under `key` (meaningful where one does).
pub open spec fn opened(key: Seq<u8>, value: Seq<u8>) -> Seq<u8> {
    choose|c: Seq<u8>| opens_to(key, value, c)
}

/// The bytes a fetch reported (empty for other events and empty subkeys).
pub open spec fn fetched(event: RetrieveEvent) -> Seq<u8> {
    match event {
        RetrieveEvent::ValueFetched(Some(v)) => v@,
        _ => Seq::empty(),
    }
}

/// The plaintexts of the first `n` chunks a retrieval fetched, in order.
pub open spec fn opened_chunks(key: Seq<u8>, events: Seq<RetrieveEvent>, n: int) -> Seq<Seq<u8>> {
    Seq::new(n as nat, |i: int| opened(key, fetched(events[3 + i])))
}

/// The first `n` chunk fetches of a retrieval each returned a value that
/// opens under `key`.
pub open spec fn chunks_opened(key: Seq<u8>, events: Seq<RetrieveEvent>, n: int) -> bool {
    forall|i: int|
        0 <= i < n ==> ((#[trigger] events[3 + i]) matches RetrieveEvent::ValueFetched(Some(v)) && opens_to(
            key,
            v@,
            opened(key, v@),
        ))
}

/// Subkey 0 returned a value that opens under `key`, and the retrieval asked
/// for its plaintext to be parsed.
pub open spec fn manifest_read(key: Seq<u8>, events: Seq<RetrieveEvent>, actions: Seq<RetrieveAction>) -> bool {
    &&& events[0] == RetrieveEvent::RecordOpened
    &&& events[1] matches RetrieveEvent::ValueFetched(Some(v)) && opens_to(key, v@, opened(key, v@))
    &&& actions[1] matches RetrieveAction::ParseManifest(bytes) && bytes@ == opened(key, fetched(events[1]))
}

/// How a retrieval under `key` that did not stop stands at step `k`.
pub open spec fn on_course(key: Seq<u8>, states: Seq<RetrieveSession>, events: Seq<RetrieveEvent>, actions: Seq<RetrieveAction>, k: int) -> bool {
    &&& states[k].key@ == key
    &&& k == 0 ==> states[k].phase == RetrievePhase::Opening
    &&& k == 1 ==> states[k].phase == RetrievePhase::ReadingManifest && events[0] == RetrieveEvent::RecordOpened
    &&& k == 2 ==> states[k].phase == RetrievePhase::ParsingManifest
    &&& k >= 2 ==> manifest_read(key, events, actions)
    &&& k >= 3 ==> (events[2] matches RetrieveEvent::ManifestParsed(Some(m)) && {
        &&& m.version == MANIFEST_VERSION
        &&& states[k].manifest == m
        &&& states[k].read == k - 3
        &&& k - 3 <= m.chunks
        &&& states[k].plaintext@ == opened_chunks(key, events, k - 3).flatten()
        &&& chunks_opened(key, events, k - 3)
        &&& states[k].phase == (if k - 3 < m.chunks {
            RetrievePhase::ReadingChunks
        } else {
            RetrievePhase::Closing
        })
    })
}

/// A retrieval under `key` that ended with `doc` after reading `m`: the record
/// was opened, subkey 0 opened to the bytes parsed as `m`, a supported
/// manifest; subkeys `1..=m.chunks` each opened; the record was closed; and
/// the document is `m`'s file name with the chunks' plaintexts concatenated
/// in order, exactly as long as `m` promised.
pub open spec fn finished_with(key: Seq<u8>, events: Seq<RetrieveEvent>, actions: Seq<RetrieveAction>, m: Manifest, doc: Document) -> bool {
    &&& m.version == MANIFEST_VERSION
    &&& events.len() == m.chunks + 4
    &&& manifest_read(key, events, actions)
    &&& chunks_opened(key, events, m.chunks as int)
    &&& events[m.chunks + 3int] == RetrieveEvent::RecordClosed
    &&& doc.filename == m.filename
    &&& doc.data@ == opened_chunks(key, events, m.chunks as int).flatten()
    &&& doc.data@.len() == m.size
}

/// A retrieval stops for good: once done, every later step is done too and
/// asks for nothing but a failure.
proof fn lemma_done_stays(states: Seq<RetrieveSession>, events: Seq<RetrieveEvent>, actions: Seq<RetrieveAction>, k: int)
    requires
        is_retrieve_run(states, events, actions),
        0 <= k <= events.len(),
        states[k].phase == RetrievePhase::Done,
    ensures
        forall|j: int| k <= j < events.len() ==> #[trigger] actions[j] is Fail,
        states[events.len() as int].phase == RetrievePhase::Done,
    decreases events.len() - k,
{
    if k < events.len() {
        assert(retrieve_step(states[k], events[k], states[k + 1], actions[k]));
        lemma_done_stays(states, events, actions, k + 1);
    }
}

/// Every step of a retrieval that has not stopped keeps it on course.
proof fn lemma_on_course(states: Seq<RetrieveSession>, events: Seq<RetrieveEvent>, actions: Seq<RetrieveAction>, k: int)
    requires
        is_retrieve_run(states, events, actions),
        states[0].phase == RetrievePhase::Opening,
        0 <= k <= events.len(),
        forall|j: int| 0 <= j <= k ==> #[trigger] states[j].phase != RetrievePhase::Done,
    ensures
        on_course(states[0].key@, states, events, actions, k),
    decreases k,
{
    let key = states[0].key@;
    if k > 0 {
        let p = k - 1;
        lemma_on_course(states, events, actions, p);
        assert(states[p].phase != RetrievePhase::Done);
        assert(states[k].phase != RetrievePhase::Done);
        assert(retrieve_step(states[p], events[p], states[k], actions[p]));
        if p == 1 {
            let v = events[1]->ValueFetched_0->Some_0;
            assert(opens_to(key, v@, opened(key, v@)));
        } else if p >= 3 {
            let m = events[2]->ManifestParsed_0->Some_0;
            let n: int = p - 3;
            let v = events[p]->ValueFetched_0->Some_0;
            let c = opened(key, v@);
            assert(opens_to(key, v@, c));
            assert(fetched(events[3 + n]) == v@);
            assert(opened_chunks(key, events, n + 1) =~= opened_chunks(key, events, n).push(c));
            opened_chunks(key, events, n).lemma_flatten_push(c);
            assert forall|i: int| 0 <= i < n + 1 implies ((#[trigger] events[3 + i]) matches RetrieveEvent::ValueFetched(
                Some(w),
            ) && opens_to(key, w@, opened(key, w@))) by {
                if i < n {
                    assert(chunks_opened(key, events, n));
                }
            }
        }
    }
}

/// A retrieval that ends with a document read it the only way it can: see
/// `finished_with`. Whatever the DHT returned, the document is the parsed
/// manifest's file name and the in-order concatenation of the opened chunks,
/// of the size the manifest promised.
pub proof fn lemma_finished_retrieval(states: Seq<RetrieveSession>, events: Seq<RetrieveEvent>, actions: Seq<RetrieveAction>)
    requires
        is_retrieve_run(states, events, actions),
        states[0].phase == RetrievePhase::Opening,
        actions.len() > 0,
        actions.last() is Finish,
    ensures
        events[2] matches RetrieveEvent::ManifestParsed(Some(m)) && finished_with(
            states[0].key@,
            events,
            actions,
            m,
            actions.last()->Finish_0,
        ),
{
    let l: int = events.len() - 1;
    assert forall|j: int| 0 <= j <= l implies #[trigger] states[j].phase != RetrievePhase::Done by {
        if states[j].phase == RetrievePhase::Done {
            lemma_done_stays(states, events, actions, j);
            assert(actions[l] is Fail);
        }
    }
    lemma_on_course(states, events, actions, l);
    assert(retrieve_step(states[l], events[l], states[l + 1], actions[l]));
    assert(l >= 3);
}

/// Chunks are fetched in order, each from its own subkey: whenever a step
/// leaves a retrieval reading chunks with `k` of them read, `k` is below the
/// manifest's chunk count and the step asks for subkey `k + 1`, the subkey of
/// the chunk after those read. `k` is 0 right after the manifest is accepted
/// and grows by one with every chunk opened.
pub proof fn lemma_fetches_next_subkey(pre: RetrieveSession, event: RetrieveEvent, post: RetrieveSession, action: RetrieveAction)
    requires
        pre.wf(),
        retrieve_step(pre, event, post, action),
        post.phase == RetrievePhase::ReadingChunks,
    ensures
        post.read < post.manifest.chunks,
        action matches RetrieveAction::FetchSubkey(s) && s == post.read + 1,
        pre.phase == RetrievePhase::ParsingManifest || pre.phase == RetrievePhase::ReadingChunks,
        pre.phase == RetrievePhase::ParsingManifest ==> post.read == 0,
        pre.phase == RetrievePhase::ReadingChunks ==> post.read == pre.read + 1 && post.manifest == pre.manifest,
{
    if pre.phase == RetrievePhase::ReadingChunks {
        if let RetrieveEvent::ValueFetched(Some(v)) = event {
            let c = choose|c: Seq<u8>| opens_to(pre.key@, v@, c);
            if v@.len() > NONCE_LEN && exists|pt: Seq<u8>| opens_to(pre.key@, v@, pt) {
                assert(opens_to(pre.key@, v@, c));
            }
        }
    }
}

/// `event` is how a store answers `action`: opening and closing the record
/// succeed, a fetch of subkey `s` returns the store's value for `s`, and the
/// manifest's bytes parse to `m`.
pub open spec fn store_answers(action: RetrieveAction, event: RetrieveEvent, store: Map<int, Seq<u8>>, m: Manifest) -> bool {
    match action {
        RetrieveAction::OpenRecord => event == RetrieveEvent::RecordOpened,
        RetrieveAction::FetchSubkey(s) => event matches RetrieveEvent::ValueFetched(Some(v)) && store.contains_key(
            s as int,
        ) && v@ == store[s as int],
        RetrieveAction::ParseManifest(_) => event == RetrieveEvent::ManifestParsed(Some(m)),
        RetrieveAction::CloseRecord => event == RetrieveEvent::RecordClosed,
        _ => true,
    }
}

/// `store` holds, for each subkey `0..=N`, what publishing `file` with `key`
/// writes there.
pub open spec fn holds_publication(store: Map<int, Seq<u8>>, key: Seq<u8>, file: Seq<u8>, manifest_json: Seq<u8>) -> bool {
    forall|s: int|
        0 <= s <= chunk_count(file.len()) ==> store.contains_key(s) && published_value(
            key,
            file,
            manifest_json,
            s,
            #[trigger] store[s],
        )
}

/// Retrieving from a store that holds a publication gives back the file: a
/// retrieval with the document's key whose every request is answered by the
/// store (each fetch by the value at the subkey asked for), and whose
/// manifest's bytes parse to the manifest that describes the file, ends
/// after `N + 4` steps with the file under its name.
pub proof fn lemma_retrieve_from_store(
    key: Seq<u8>,
    file: Seq<u8>,
    filename: Seq<char>,
    manifest_json: Seq<u8>,
    m: Manifest,
    store: Map<int, Seq<u8>>,
    states: Seq<RetrieveSession>,
    events: Seq<RetrieveEvent>,
    actions: Seq<RetrieveAction>,
)
    requires
        chunk_count(file.len()) < u32::MAX,
        describes(m, filename, file),
        holds_publication(store, key, file, manifest_json),
        is_retrieve_run(states, events, actions),
        states[0].phase == RetrievePhase::Opening,
        states[0].key@ == key,
        events.len() == chunk_count(file.len()) + 4,
        events[0] == RetrieveEvent::RecordOpened,
        forall|k: int| 0 <= k < actions.len() - 1 ==> store_answers(#[trigger] actions[k], events[k + 1], store, m),
    ensures
        actions[actions.len() - 1] matches RetrieveAction::Finish(doc) && doc.filename@ == filename && doc.data@ == file,
{
    let n: int = chunk_count(file.len()) as int;
    lemma_store_fetches(key, file, filename, manifest_json, m, store, states, events, actions, n);
    assert(store_answers(actions[n + 2], events[n + 3], store, m));
    assert(reads_back(key, file, filename, manifest_json, events)) by {
        assert(store_answers(actions[0], events[1], store, m));
        assert(retrieve_step(states[0], events[0], states[1], actions[0]));
        assert(store.contains_key(0) && published_value(key, file, manifest_json, 0, store[0]));
        assert(store_answers(actions[1], events[2], store, m)) by {
            lemma_store_fetches(key, file, filename, manifest_json, m, store, states, events, actions, 0);
        }
    }
    lemma_retrieve_returns_published(key, file, filename, manifest_json, states, events, actions);
}

/// After `j` chunks of a retrieval answered by a store that holds a
/// publication, `j` chunks are read, each fetched from its own subkey, and
/// the next request is subkey `j + 1` (or closing after the last chunk).
proof fn lemma_store_fetches(
    key: Seq<u8>,
    file: Seq<u8>,
    filename: Seq<char>,
    manifest_json: Seq<u8>,
    m: Manifest,
    store: Map<int, Seq<u8>>,
    states: Seq<RetrieveSession>,
    events: Seq<RetrieveEvent>,
    actions: Seq<RetrieveAction>,
    j: int,
)
    requires
        chunk_count(file.len()) < u32::MAX,
        describes(m, filename, file),
        holds_publication(store, key, file, manifest_json),
        is_retrieve_run(states, events, actions),
        states[0].phase == RetrievePhase::Opening,
        states[0].key@ == key,
        events.len() == chunk_count(file.len()) + 4,
        events[0] == RetrieveEvent::RecordOpened,
        forall|k: int| 0 <= k < actions.len() - 1 ==> store_answers(#[trigger] actions[k], events[k + 1], store, m),
        0 <= j <= chunk_count(file.len()),
    ensures
        actions[1] matches RetrieveAction::ParseManifest(_),
        states[3 + j].key@ == key,
        states[3 + j].manifest == m,
        states[3 + j].read == j,
        j < chunk_count(file.len()) ==> states[3 + j].phase == RetrievePhase::ReadingChunks,
        j == chunk_count(file.len()) ==> states[3 + j].phase == RetrievePhase::Closing,
        j < chunk_count(file.len()) ==> (actions[2 + j] matches RetrieveAction::FetchSubkey(s) && s == j + 1),
        j == chunk_count(file.len()) ==> actions[2 + j] == RetrieveAction::CloseRecord,
        forall|i: int|
            0 <= i < j ==> ((#[trigger] events[3 + i]) matches RetrieveEvent::ValueFetched(Some(v)) && published_value(
                key,
                file,
                manifest_json,
                i + 1,
                v@,
            )),
    decreases j,
{
    let n: int = chunk_count(file.len()) as int;
    if j == 0 {
        assert(retrieve_step(states[0], events[0], states[1], actions[0]));
        assert(store_answers(actions[0], events[1], store, m));
        assert(store.contains_key(0) && published_value(key, file, manifest_json, 0, store[0]));
        let v = events[1]->ValueFetched_0->Some_0;
        assert(opens_to(key, v@, manifest_json));
        assert(retrieve_step(states[1], events[1], states[2], actions[1]));
        assert(store_answers(actions[1], events[2], store, m));
        assert(retrieve_step(states[2], events[2], states[3], actions[2]));
    } else {
        lemma_store_fetches(key, file, filename, manifest_json, m, store, states, events, actions, j - 1);
        let p: int = 2 + j;
        assert(store_answers(actions[p - 1], events[p], store, m));
        assert(store.contains_key(j) && published_value(key, file, manifest_json, j, store[j]));
        let v = events[p]->ValueFetched_0->Some_0;
        assert(opens_to(key, v@, chunks_of(file)[j - 1]));
        assert(retrieve_step(states[p], events[p], states[p + 1], actions[p]));
        assert forall|i: int| 0 <= i < j implies ((#[trigger] events[3 + i]) matches RetrieveEvent::ValueFetched(
            Some(w),
        ) && published_value(key, file, manifest_json, i + 1, w@)) by {
            if i == j - 1 {
                assert(events[3 + i] == events[p]);
            }
        }
    }
}

/// `states`, `events` and `actions` are a run of a retrieval: stepping
/// `states[k]` on `events[k]` gives `states[k + 1]` and asks for `actions[k]`.
pub open spec fn is_retrieve_run(states: Seq<RetrieveSession>, events: Seq<RetrieveEvent>, actions: Seq<RetrieveAction>) -> bool {
    &&& states.len() == events.len() + 1
    &&& actions.len() == events.len()
    &&& forall|k: int| 0 <= k < events.len() ==> retrieve_step(#[trigger] states[k], events[k], states[k + 1], actions[k])
}

/// The events a retrieval sees when the DHT gives back what publishing `file`
/// wrote: the record opens, subkey 0 holds a published manifest value, the
/// manifest parses to the one that describes the file, subkeys `1..=N` hold
/// the published chunks, and the record closes.
pub open spec fn reads_back(
    key: Seq<u8>,
    file: Seq<u8>,
    filename: Seq<char>,
    manifest_json: Seq<u8>,
    events: Seq<RetrieveEvent>,
) -> bool {
    let n: int = chunk_count(file.len()) as int;
    &&& events.len() == n + 4
    &&& events[0] matches RetrieveEvent::RecordOpened
    &&& events[1] matches RetrieveEvent::ValueFetched(Some(v)) && published_value(key, file, manifest_json, 0, v@)
    &&& events[2] matches RetrieveEvent::ManifestParsed(Some(m)) && describes(m, filename, file)
    &&& forall|i: int|
        0 <= i < n ==> ((#[trigger] events[3 + i]) matches RetrieveEvent::ValueFetched(Some(v)) && published_value(
            key,
            file,
            manifest_json,
            i + 1,
            v@,
        ))
    &&& events[n + 3] matches RetrieveEvent::RecordClosed
}

/// Retrieving gives back what was published: a retrieval that starts with the
/// document's key and reads back the values publishing wrote ends with the
/// document, under the published file name and with every byte of the file.
pub proof fn lemma_retrieve_returns_published(
    key: Seq<u8>,
    file: Seq<u8>,
    filename: Seq<char>,
    manifest_json: Seq<u8>,
    states: Seq<RetrieveSession>,
    events: Seq<RetrieveEvent>,
    actions: Seq<RetrieveAction>,
)
    requires
        chunk_count(file.len()) < u32::MAX,
        file.len() <= u64::MAX,
        is_retrieve_run(states, events, actions),
        states[0].phase == RetrievePhase::Opening,
        states[0].key@ == key,
        reads_back(key, file, filename, manifest_json, events),
    ensures
        actions[actions.len() - 1] matches RetrieveAction::Finish(doc) && doc.filename@ == filename && doc.data@ == file,
{
    let n: int = chunk_count(file.len()) as int;
    assert(retrieve_step(states[0], events[0], states[1], actions[0]));
    assert(retrieve_step(states[1], events[1], states[2], actions[1]));
    let v0 = events[1]->ValueFetched_0->Some_0;
    assert(opens_to(key, v0@, manifest_json));
    assert(states[1].key@ == key);
    assert(states[2].phase == RetrievePhase::ParsingManifest);
    assert(retrieve_step(states[2], events[2], states[3], actions[2]));
    let m = events[2]->ManifestParsed_0->Some_0;
    lemma_chunks_read(key, file, filename, manifest_json, states, events, actions, m, n);
    let last = states[n + 3];
    assert(retrieve_step(last, events[n + 3], states[n + 4], actions[n + 3]));
    lemma_chunks_reassemble(file);
    assert(chunks_of(file).subrange(0, n) =~= chunks_of(file));
}


/// The value a write action stores (empty for other actions).
pub open spec fn written_value(action: PublishAction) -> Seq<u8> {
    match action {
        PublishAction::WriteSubkey { value, .. } => value@,
        _ => Seq::empty(),
    }
}

/// The events of a retrieval from a DHT that returns, for each subkey, what
/// the publication's actions `writes` wrote there, and whose manifest parses
/// to `manifest`.
pub open spec fn reads_what_was_written(
    writes: Seq<PublishAction>,
    manifest: Manifest,
    chunks: nat,
    events: Seq<RetrieveEvent>,
) -> bool {
    &&& events.len() == chunks + 4
    &&& events[0] matches RetrieveEvent::RecordOpened
    &&& events[1] matches RetrieveEvent::ValueFetched(Some(v)) && v@ == written_value(writes[1])
    &&& events[2] == RetrieveEvent::ManifestParsed(Some(manifest))
    &&& forall|i: int|
        0 <= i < chunks ==> ((#[trigger] events[3 + i]) matches RetrieveEvent::ValueFetched(Some(v)) && v@
            == written_value(writes[2 + i]))
    &&& events[chunks + 3int] matches RetrieveEvent::RecordClosed
}

/// Publishing and then retrieving gives the document back: when a
/// publication in which every request succeeds, of a file whose chunks and
/// manifest a record can hold, is read back with its key,
/// from a DHT that returns what was written, and the manifest's encoding
/// parses back to the manifest publication started with, the retrieval ends
/// with the published file under its file name.
pub proof fn lemma_publish_then_retrieve(
    filename: Seq<char>,
    manifest: Manifest,
    manifest_json: Seq<u8>,
    record_key: String,
    pub_states: Seq<PublishSession>,
    pub_events: Seq<PublishEvent>,
    pub_actions: Seq<PublishAction>,
    states: Seq<RetrieveSession>,
    events: Seq<RetrieveEvent>,
    actions: Seq<RetrieveAction>,
)
    requires
        is_publish_run(pub_states, pub_events, pub_actions),
        pub_states[0].phase == PublishPhase::EncodingManifest,
        describes(manifest, filename, pub_states[0].file@),
        cipher_accepts(manifest_json.len()),
        record_holds(chunk_count(pub_states[0].file@.len())),
        all_succeed(manifest_json, record_key, chunk_count(pub_states[0].file@.len()), pub_events),
        is_retrieve_run(states, events, actions),
        states[0].phase == RetrievePhase::Opening,
        states[0].key == pub_states[0].key,
        reads_what_was_written(pub_actions, manifest, chunk_count(pub_states[0].file@.len()), events),
    ensures
        actions[actions.len() - 1] matches RetrieveAction::Finish(doc) && doc.filename@ == filename
            && doc.data@ == pub_states[0].file@,
{
    let file = pub_states[0].file@;
    let key = pub_states[0].key@;
    let n: int = chunk_count(file.len()) as int;
    lemma_publish_writes_every_subkey(pub_states, pub_events, pub_actions, manifest_json, record_key);
    assert(pub_states[0].wf());
    assert(writes_published(pub_actions[1int + 0], 0, key, file, manifest_json));
    assert forall|i: int|
        0 <= i < n implies ((#[trigger] events[3 + i]) matches RetrieveEvent::ValueFetched(Some(v))
        && published_value(key, file, manifest_json, i + 1, v@)) by {
        assert(writes_published(pub_actions[1 + (i + 1)], i + 1, key, file, manifest_json));
    }
    assert(reads_back(key, file, filename, manifest_json, events));
    lemma_retrieve_returns_published(key, file, filename, manifest_json, states, events, actions);
}

/// After the first `j` chunks, the run stands reading chunk `j + 1` (or closing
/// when `j` is the last), with the manifest accepted and the first `j` chunks
/// concatenated.
proof fn lemma_chunks_read(
    key: Seq<u8>,
    file: Seq<u8>,
    filename: Seq<char>,
    manifest_json: Seq<u8>,
    states: Seq<RetrieveSession>,
    events: Seq<RetrieveEvent>,
    actions: Seq<RetrieveAction>,
    m: Manifest,
    j: int,
)
    requires
        chunk_count(file.len()) < u32::MAX,
        is_retrieve_run(states, events, actions),
        reads_back(key, file, filename, manifest_json, events),
        states[2].phase == RetrievePhase::ParsingManifest,
        states[2].key@ == key,
        events[2] == RetrieveEvent::ManifestParsed(Some(m)),
        0 <= j <= chunk_count(file.len()),
    ensures
        states[3 + j].key@ == key,
        states[3 + j].manifest == m,
        states[3 + j].read == j,
        states[3 + j].plaintext@ == chunks_of(file).subrange(0, j).flatten(),
        j < chunk_count(file.len()) ==> states[3 + j].phase == RetrievePhase::ReadingChunks,
        j == chunk_count(file.len()) ==> states[3 + j].phase == RetrievePhase::Closing,
    decreases j,
{
    let n: nat = chunk_count(file.len());
    if j == 0 {
        assert(retrieve_step(states[2], events[2], states[3], actions[2]));
        assert(chunks_of(file).subrange(0, 0) =~= Seq::<Seq<u8>>::empty());
    } else {
        lemma_chunks_read(key, file, filename, manifest_json, states, events, actions, m, j - 1);
        let pre = states[3 + j - 1];
        assert(retrieve_step(pre, events[3 + (j - 1)], states[3 + j], actions[3 + j - 1]));
        let v = events[3 + (j - 1)]->ValueFetched_0->Some_0;
        let chunk = chunks_of(file)[j - 1];
        assert(opens_to(key, v@, chunk));
        let prefix = chunks_of(file).subrange(0, j - 1);
        assert(chunks_of(file).subrange(0, j) =~= prefix.push(chunk));
        prefix.lemma_flatten_push(chunk);
    }
}

impl RetrieveSession {
    /// The session's own bookkeeping is consistent.
    pub open spec fn wf(self) -> bool {
        &&& self.read <= self.manifest.chunks
        &&& self.phase == RetrievePhase::ReadingChunks ==> self.read < self.manifest.chunks
    }

    /// Starts retrieving the document a share payload points at: the caller
    /// opens the record first.
    pub fn new(payload: &SharePayload) -> (res: (RetrieveSession, RetrieveAction))
        ensures
            res.0.wf(),
            res.0.key == payload.encryption_key,
            res.0.phase == RetrievePhase::Opening,
            res.1 == RetrieveAction::OpenRecord,
    {
        let session = RetrieveSession {
            key: payload.encryption_key,
            phase: RetrievePhase::Opening,
            manifest: Manifest { version: 0, filename: String::new(), size: 0, chunks: 0 },
            read: 0,
            plaintext: Vec::new(),
        };
        (session, RetrieveAction::OpenRecord)
    }

    fn fail(&mut self, err: RetrieveError) -> (action: RetrieveAction)
        requires
            old(self).wf(),
        ensures
            final(self).wf(),
            final(self).key == old(self).key,
            stops_with(*final(self), action, err),
    {
        self.phase = RetrievePhase::Done;
        RetrieveAction::Fail(err)
    }

    /// Asks for the next chunk, or for closing once all are read.
    fn next_chunk_action(&mut self) -> (action: RetrieveAction)
        requires
            old(self).read <= old(self).manifest.chunks,
        ensures
            final(self).wf(),
            final(self).key == old(self).key,
            final(self).manifest == old(self).manifest,
            final(self).read == old(self).read,
            final(self).plaintext == old(self).plaintext,
            next_read(*final(self), action),
    {
        if self.read == self.manifest.chunks {
            self.phase = RetrievePhase::Closing;
            RetrieveAction::CloseRecord
        } else {
            self.phase = RetrievePhase::ReadingChunks;
            RetrieveAction::FetchSubkey(self.read + 1)
        }
    }

    /// Takes in what happened and decides what comes next.
    pub fn step(&mut self, event: RetrieveEvent) -> (action: RetrieveAction)
        requires
            old(self).wf(),
        ensures
            final(self).wf(),
            retrieve_step(*old(self), event, *final(self), action),
    {
        match (self.phase, event) {
            (RetrievePhase::Opening, RetrieveEvent::RecordOpened) => {
                self.phase = RetrievePhase::ReadingManifest;
                RetrieveAction::FetchSubkey(0)
            },
            (RetrievePhase::ReadingManifest, RetrieveEvent::ValueFetched(value)) => match value {
                None => self.fail(RetrieveError::ManifestMissing),
                Some(sealed) => match decrypt_chunk(&self.key, sealed.as_slice()) {
                    Err(e) => self.fail(RetrieveError::Crypto(e)),
                    Ok(json) => {
                        self.phase = RetrievePhase::ParsingManifest;
                        RetrieveAction::ParseManifest(json)
                    },
                },
            },
            (RetrievePhase::ParsingManifest, RetrieveEvent::ManifestParsed(parsed)) => match parsed {
                None => self.fail(RetrieveError::ManifestInvalid),
                Some(m) => {
                    if m.version != MANIFEST_VERSION {
                        self.fail(RetrieveError::UnsupportedVersion { version: m.version })
                    } else {
                        self.manifest = m;
                        self.read = 0;
                        self.plaintext = Vec::new();
                        self.next_chunk_action()
                    }
                },
            },
            (RetrievePhase::ReadingChunks, RetrieveEvent::ValueFetched(value)) => match value {
                None => {
                    let subkey: u32 = self.read + 1;
                    self.fail(RetrieveError::ChunkMissing { subkey })
                },
                Some(sealed) => match decrypt_chunk(&self.key, sealed.as_slice()) {
                    Err(e) => self.fail(RetrieveError::Crypto(e)),
                    Ok(mut chunk) => {
                        self.plaintext.append(&mut chunk);
                        self.read = self.read + 1;
                        self.next_chunk_action()
                    },
                },
            },
            (RetrievePhase::Closing, RetrieveEvent::RecordClosed) => {
                if self.plaintext.len() as u64 == self.manifest.size {
                    let mut data = Vec::new();
                    core::mem::swap(&mut data, &mut self.plaintext);
                    let filename = self.manifest.filename.clone();
                    self.phase = RetrievePhase::Done;
                    RetrieveAction::Finish(Document { filename, data })
                } else {
                    let actual: usize = self.plaintext.len();
                    let expected: u64 = self.manifest.size;
                    self.fail(RetrieveError::SizeMismatch { expected, actual })
                }
            },
            _ => self.fail(RetrieveError::UnexpectedEvent),
        }
    }
}

} // verus!
