//! The secrets manager: it binds the key store to the vault on first contact
//! and turns every later response into decrypted records. The caller does
//! the round trips; the manager decides what comes next.

use crate::config::ConfigKeys;
use crate::crypto::{decrypt_outcome, CryptoError, CryptoUtils};
use crate::json::{json_map_text, texts};
use crate::key_value_storage::{reopened, FileKeyValueStorage};
use crate::records::{
    bad_folder_views, bad_record_views, lemma_folders_extend, lemma_opened_records_count,
    lemma_partial_failure_isolation, nothing_opened, open_payload, opened_payload, opened_record,
    opened_records, secret_views, unseal, unsealed, with_folders, BadItem, Batch,
    FolderDecryptError, RecordDecryptError, SecretRecord, SecretRecordView,
};
use crate::utils::{
    base64_standard_text, base64_to_bytes, bytes_to_base64, lossy_text, standard_decoded,
    url_safe_decoded, url_safe_str_to_bytes, utf8_lossy_text, EncodingError,
};
use crate::wire::{envelope_of, optional_text, Envelope, EnvelopeView};
use vstd::prelude::*;
use vstd::string::StrSliceExecFns;
use vstd::utf8::encode_utf8;

verus! {

/// Which records and folders a fetch asks for. `None` asks for all.
#[derive(Debug)]
pub struct QueryOptions {
    /// The identifiers of the records that are asked for.
    pub records_filter: Option<Vec<String>>,
    /// The identifiers of the folders that are asked for.
    pub folders_filter: Option<Vec<String>>,
}

/// What one response came to.
#[derive(Debug)]
pub struct RecordsResponse {
    /// The records that were decrypted, in the order of the response.
    pub records: Vec<SecretRecord>,
    /// Whether this response bound the store instead of carrying records.
    pub just_bound: bool,
    /// The warnings of the vault, word for word.
    pub warnings: Vec<String>,
    /// The records that could not be decrypted.
    pub bad_records: Vec<RecordDecryptError>,
    /// The folders that could not be decrypted.
    pub bad_folders: Vec<FolderDecryptError>,
}

/// The model of a `RecordsResponse`.
pub struct RecordsResponseView {
    pub records: Seq<SecretRecordView>,
    pub just_bound: bool,
    pub warnings: Seq<Seq<char>>,
    pub bad_records: Seq<BadItem>,
    pub bad_folders: Seq<BadItem>,
}

impl View for RecordsResponse {
    type V = RecordsResponseView;

    open spec fn view(&self) -> RecordsResponseView {
        RecordsResponseView {
            records: secret_views(self.records@),
            just_bound: self.just_bound,
            warnings: texts(self.warnings@),
            bad_records: bad_record_views(self.bad_records@),
            bad_folders: bad_folder_views(self.bad_folders@),
        }
    }
}

/// What one response came to, and the document to persist where it changed
/// the key store.
#[derive(Debug)]
pub struct Processed {
    /// What the response came to.
    pub response: RecordsResponse,
    /// The whole key store after the response, where the response changed
    /// it. The caller writes it to the store's location.
    pub persist: Option<String>,
}

/// Why a fetch came to nothing.
#[derive(Debug, Clone, Copy, PartialEq, Eq, Structural)]
pub enum FetchError {
    /// The response did not open under the active key.
    Crypto(CryptoError),
    /// A key in the store is not base64.
    Encoding,
    /// The store could not be persisted.
    Io,
    /// The round trip to the vault failed.
    Transport,
    /// The offered application key did not open under the client key.
    BindingFailed,
    /// An event came that the fetch was not waiting for.
    OutOfTurn,
}

/// How far a fetch has come.
#[derive(Debug, Clone, Copy, PartialEq, Eq, Structural)]
pub enum FetchPhase {
    /// Nothing was sent yet.
    Idle,
    /// The first request is out.
    AwaitingResponse,
    /// The store was bound and the request was sent once more.
    AwaitingRetry,
    /// The fetch is over.
    Done,
}

/// What happened outside since the last step.
#[derive(Debug)]
pub enum FetchEvent {
    /// The caller asks for the fetch to begin.
    Start,
    /// The vault answered with these bytes.
    Response(Vec<u8>),
    /// The round trip failed.
    TransportFailed,
    /// The store could not be written.
    StorageFailed,
}

/// What a fetch hands to its caller in the end.
#[derive(Debug)]
pub enum FetchOutput {
    /// The decrypted records alone.
    Records(Vec<SecretRecord>),
    /// The whole response, with warnings and failed items.
    Full(RecordsResponse),
}

/// What the caller is to do next.
#[derive(Debug)]
pub enum FetchAction {
    /// Write `persist`, where there is one, to the store's location; then
    /// send the request for `query` to `endpoint` and come back with the
    /// answer.
    Post { endpoint: String, query: QueryOptions, persist: Option<String> },
    /// Hand the result to whoever asked.
    Deliver(FetchOutput),
    /// Report the failure.
    Fail(FetchError),
}

/// The phase after a step, and what the caller is to do.
#[derive(Debug)]
pub struct FetchStep {
    pub phase: FetchPhase,
    pub action: FetchAction,
}

/// The model of a `FetchOutput`.
pub enum OutputView {
    Records(Seq<SecretRecordView>),
    Full(RecordsResponseView),
}

/// The model of a `FetchAction`, without the query that a `Post` hands back.
pub enum ActionView {
    Post { endpoint: Seq<char>, persist: Option<Seq<char>> },
    Deliver(OutputView),
    Fail(FetchError),
}

/// The model of a step: the store after it, the phase, the action.
pub struct StepView {
    pub store: Map<Seq<char>, Seq<char>>,
    pub phase: FetchPhase,
    pub action: ActionView,
}

/// The store after a response, what the response came to, and the document
/// that is handed out for persisting.
pub struct Outcome {
    pub store: Map<Seq<char>, Seq<char>>,
    pub result: Result<RecordsResponseView, FetchError>,
    pub persist: Option<Seq<char>>,
}

/// The outcome of a response that leaves the store as it was.
pub open spec fn unchanged(
    store: Map<Seq<char>, Seq<char>>,
    result: Result<RecordsResponseView, FetchError>,
) -> Outcome {
    Outcome { store, result, persist: None }
}

/// Whether `c` is white space.
pub open spec fn is_white_space(c: char) -> bool {
    let code = c as u32;
    ||| 0x09 <= code <= 0x0d
    ||| code == 0x20
    ||| code == 0x85
    ||| code == 0xa0
    ||| code == 0x1680
    ||| 0x2000 <= code <= 0x200a
    ||| code == 0x2028
    ||| code == 0x2029
    ||| code == 0x202f
    ||| code == 0x205f
    ||| code == 0x3000
}

/// Whether `text` is blank: empty, or white space throughout.
pub open spec fn blank(text: Seq<char>) -> bool {
    forall|i: int| 0 <= i < text.len() ==> is_white_space(#[trigger] text[i])
}

/// The keys that a bind response yields.
pub struct Binding {
    pub app_key: Seq<u8>,
    pub owner_public_key: Option<Seq<u8>>,
}

/// The endpoint of the vault that serves secrets.
pub open spec fn secrets_endpoint() -> Seq<char> {
    "get_secret"@
}

/// The host of a manager that was given none.
pub open spec fn default_hostname() -> Seq<char> {
    "keepersecurity.com"@
}

/// The store is bound once it holds an application key.
pub open spec fn is_bound(store: Map<Seq<char>, Seq<char>>) -> bool {
    store.contains_key(ConfigKeys::KEY_APP_KEY.name())
}

/// The text of the client key: the store's slot, or the one-time token where
/// the slot is empty.
pub open spec fn client_key_text(store: Map<Seq<char>, Seq<char>>, token: Seq<char>) -> Seq<char> {
    if store.contains_key(ConfigKeys::KEY_CLIENT_KEY.name()) {
        store[ConfigKeys::KEY_CLIENT_KEY.name()]
    } else {
        token
    }
}

/// The text of the application key, empty where the store holds none.
pub open spec fn app_key_text(store: Map<Seq<char>, Seq<char>>) -> Seq<char> {
    if is_bound(store) {
        store[ConfigKeys::KEY_APP_KEY.name()]
    } else {
        Seq::empty()
    }
}

/// The client key: its text is URL-safe base64.
pub open spec fn client_key(store: Map<Seq<char>, Seq<char>>, token: Seq<char>) -> Result<
    Seq<u8>,
    EncodingError,
> {
    url_safe_decoded(encode_utf8(client_key_text(store, token)))
}

/// The application key: its text is standard base64.
pub open spec fn app_key(store: Map<Seq<char>, Seq<char>>) -> Result<Seq<u8>, EncodingError> {
    standard_decoded(encode_utf8(app_key_text(store)))
}

/// The key that opens a response: the application key once the store is
/// bound, the client key before.
pub open spec fn active_key(store: Map<Seq<char>, Seq<char>>, token: Seq<char>) -> Result<
    Seq<u8>,
    EncodingError,
> {
    if is_bound(store) {
        app_key(store)
    } else {
        client_key(store, token)
    }
}

/// The keys that a bind response yields: the offered application key opens
/// under the client key, and the owner's public key, where there is one, is
/// URL-safe base64. `None` where any of this fails.
pub open spec fn binding_of(
    store: Map<Seq<char>, Seq<char>>,
    token: Seq<char>,
    offer: Seq<char>,
    owner: Option<Seq<char>>,
) -> Option<Binding> {
    match client_key(store, token) {
        Err(_) => None,
        Ok(key) => match unsealed(key, offer) {
            Err(_) => None,
            Ok(app_key) => match owner {
                None => Some(Binding { app_key, owner_public_key: None }),
                Some(text) => match url_safe_decoded(encode_utf8(text)) {
                    Err(_) => None,
                    Ok(bytes) => Some(Binding { app_key, owner_public_key: Some(bytes) }),
                },
            },
        },
    }
}

/// The store after binding: the application key is set, the client key is
/// gone, and the owner's public key is set where the response had one.
pub open spec fn store_after_binding(store: Map<Seq<char>, Seq<char>>, binding: Binding) -> Map<
    Seq<char>,
    Seq<char>,
> {
    let rotated = store.insert(
        ConfigKeys::KEY_APP_KEY.name(),
        base64_standard_text(binding.app_key),
    ).remove(ConfigKeys::KEY_CLIENT_KEY.name());
    match binding.owner_public_key {
        Some(bytes) => rotated.insert(
            ConfigKeys::KEY_OWNER_PUBLIC_KEY.name(),
            base64_standard_text(bytes),
        ),
        None => rotated,
    }
}

/// What a response that binds comes to: no records, whatever it carries.
pub open spec fn bound_response(envelope: EnvelopeView) -> RecordsResponseView {
    RecordsResponseView {
        records: Seq::empty(),
        just_bound: true,
        warnings: envelope.warnings,
        bad_records: Seq::empty(),
        bad_folders: Seq::empty(),
    }
}

/// What a response with records comes to under the application key.
pub open spec fn data_response(key: Seq<u8>, envelope: EnvelopeView) -> RecordsResponseView {
    let batch = opened_payload(key, envelope.records, envelope.folders);
    RecordsResponseView {
        records: batch.records,
        just_bound: false,
        warnings: envelope.warnings,
        bad_records: batch.bad_records,
        bad_folders: batch.bad_folders,
    }
}

/// What a decrypted response comes to. An offered application key binds a
/// store that is not bound yet, and is passed over by one that is. A failed
/// binding leaves the store as it was. A binding hands out the document of
/// the store that it made; nothing else changes the store.
pub open spec fn response_outcome(
    store: Map<Seq<char>, Seq<char>>,
    token: Seq<char>,
    text: Seq<char>,
) -> Outcome {
    let envelope = envelope_of(text);
    if !is_bound(store) && envelope.encrypted_app_key is Some {
        match binding_of(
            store,
            token,
            envelope.encrypted_app_key->Some_0,
            envelope.owner_public_key,
        ) {
            None => unchanged(store, Err(FetchError::BindingFailed)),
            Some(binding) => Outcome {
                store: store_after_binding(store, binding),
                result: Ok(bound_response(envelope)),
                persist: Some(json_map_text(store_after_binding(store, binding))),
            },
        }
    } else {
        match app_key(store) {
            Err(_) => unchanged(store, Err(FetchError::Encoding)),
            Ok(key) => unchanged(store, Ok(data_response(key, envelope))),
        }
    }
}

/// What the raw bytes of a response come to: they open under the active key
/// and are read as text.
pub open spec fn fetch_outcome(
    store: Map<Seq<char>, Seq<char>>,
    token: Seq<char>,
    response: Seq<u8>,
) -> Outcome {
    match active_key(store, token) {
        Err(_) => unchanged(store, Err(FetchError::Encoding)),
        Ok(key) => match decrypt_outcome(response, key) {
            Err(e) => unchanged(store, Err(FetchError::Crypto(e))),
            Ok(plaintext) => response_outcome(store, token, utf8_lossy_text(plaintext)),
        },
    }
}

/// What the caller gets of a response: the records alone, or all of it.
pub open spec fn selected(response: RecordsResponseView, full_response: bool) -> OutputView {
    if full_response {
        OutputView::Full(response)
    } else {
        OutputView::Records(response.records)
    }
}

/// How many round trips a fetch in this phase can still make at most, plus
/// one while it is not over.
pub open spec fn steps_left(phase: FetchPhase) -> nat {
    match phase {
        FetchPhase::Idle => 3,
        FetchPhase::AwaitingResponse => 2,
        FetchPhase::AwaitingRetry => 1,
        FetchPhase::Done => 0,
    }
}

/// Whether a fetch in this phase takes a response: the first request is out,
/// or the request was sent again to a store that is bound by now.
pub open spec fn takes_response(store: Map<Seq<char>, Seq<char>>, phase: FetchPhase) -> bool {
    phase == FetchPhase::AwaitingResponse || (phase == FetchPhase::AwaitingRetry && is_bound(
        store,
    ))
}

/// The step that a response brings about in a fetch that takes one. A
/// response that changed the store sends the caller to persist the store and
/// to ask once more; any other answer is delivered.
pub open spec fn step_on_response(
    store: Map<Seq<char>, Seq<char>>,
    token: Seq<char>,
    full_response: bool,
    response: Seq<u8>,
) -> StepView {
    let outcome = fetch_outcome(store, token, response);
    match outcome.result {
        Err(e) => StepView {
            store: outcome.store,
            phase: FetchPhase::Done,
            action: ActionView::Fail(e),
        },
        Ok(answer) => match outcome.persist {
            Some(document) => StepView {
                store: outcome.store,
                phase: FetchPhase::AwaitingRetry,
                action: ActionView::Post {
                    endpoint: secrets_endpoint(),
                    persist: Some(document),
                },
            },
            None => StepView {
                store: outcome.store,
                phase: FetchPhase::Done,
                action: ActionView::Deliver(selected(answer, full_response)),
            },
        },
    }
}

/// The step that an event brings about: the store after it, the next phase,
/// and what the caller is to do.
pub open spec fn next_step(
    store: Map<Seq<char>, Seq<char>>,
    token: Seq<char>,
    full_response: bool,
    phase: FetchPhase,
    event: FetchEvent,
) -> StepView {
    let waiting = phase == FetchPhase::AwaitingResponse || phase == FetchPhase::AwaitingRetry;
    match event {
        FetchEvent::Start => if phase == FetchPhase::Idle {
            StepView {
                store,
                phase: FetchPhase::AwaitingResponse,
                action: ActionView::Post { endpoint: secrets_endpoint(), persist: None },
            }
        } else {
            StepView { store, phase: FetchPhase::Done, action: ActionView::Fail(FetchError::OutOfTurn) }
        },
        FetchEvent::Response(bytes) => if takes_response(store, phase) {
            step_on_response(store, token, full_response, bytes@)
        } else {
            StepView { store, phase: FetchPhase::Done, action: ActionView::Fail(FetchError::OutOfTurn) }
        },
        FetchEvent::TransportFailed => StepView {
            store,
            phase: FetchPhase::Done,
            action: ActionView::Fail(
                if waiting {
                    FetchError::Transport
                } else {
                    FetchError::OutOfTurn
                },
            ),
        },
        FetchEvent::StorageFailed => StepView {
            store,
            phase: FetchPhase::Done,
            action: ActionView::Fail(
                if waiting {
                    FetchError::Io
                } else {
                    FetchError::OutOfTurn
                },
            ),
        },
    }
}

/// Whether the executable result `r` is what the outcome `expected` holds:
/// the same answer with the same document, or the same error.
pub open spec fn is_result(r: Result<Processed, FetchError>, expected: Outcome) -> bool {
    match expected.result {
        Ok(response) => r is Ok && r->Ok_0.response@ == response && optional_text(
            r->Ok_0.persist,
        ) == expected.persist,
        Err(e) => r is Err && r->Err_0 == e,
    }
}

/// Whether the executable output `output` is the model `expected`.
pub open spec fn is_output(output: FetchOutput, expected: OutputView) -> bool {
    match expected {
        OutputView::Records(records) => output matches FetchOutput::Records(r) && secret_views(r@)
            == records,
        OutputView::Full(response) => output matches FetchOutput::Full(r) && r@ == response,
    }
}

/// Whether the executable action `action` is the model `expected`, and a
/// `Post` hands the query `query` back.
pub open spec fn is_action(action: FetchAction, expected: ActionView, query: QueryOptions) -> bool {
    match expected {
        ActionView::Post { endpoint, persist } => action matches FetchAction::Post {
            endpoint: e,
            query: q,
            persist: p,
        } && e@ == endpoint && q == query && optional_text(p) == persist,
        ActionView::Deliver(output) => action matches FetchAction::Deliver(o) && is_output(
            o,
            output,
        ),
        ActionView::Fail(error) => action matches FetchAction::Fail(e) && e == error,
    }
}

/// Binding leaves the store bound: the application key is there and the
/// client key is gone.
pub proof fn lemma_binding_rotates_keys(store: Map<Seq<char>, Seq<char>>, binding: Binding)
    ensures
        is_bound(store_after_binding(store, binding)),
        !store_after_binding(store, binding).contains_key(ConfigKeys::KEY_CLIENT_KEY.name()),
        store_after_binding(store, binding)[ConfigKeys::KEY_APP_KEY.name()]
            == base64_standard_text(binding.app_key),
{
    ConfigKeys::lemma_names_distinct(ConfigKeys::KEY_APP_KEY, ConfigKeys::KEY_CLIENT_KEY);
    ConfigKeys::lemma_names_distinct(ConfigKeys::KEY_APP_KEY, ConfigKeys::KEY_OWNER_PUBLIC_KEY);
    ConfigKeys::lemma_names_distinct(ConfigKeys::KEY_CLIENT_KEY, ConfigKeys::KEY_OWNER_PUBLIC_KEY);
}

/// A bound store stays as it is: no response changes it, and none is taken
/// for a bind response, whatever it offers.
pub proof fn lemma_bound_store_is_stable(
    store: Map<Seq<char>, Seq<char>>,
    token: Seq<char>,
    text: Seq<char>,
    response: Seq<u8>,
)
    requires
        is_bound(store),
    ensures
        response_outcome(store, token, text).store == store,
        response_outcome(store, token, text).persist is None,
        response_outcome(store, token, text).result matches Ok(answer) ==> !answer.just_bound,
        fetch_outcome(store, token, response).store == store,
        fetch_outcome(store, token, response).persist is None,
        fetch_outcome(store, token, response).result matches Ok(answer) ==> !answer.just_bound,
{
}

/// Every change of the store is handed out: a response either leaves the
/// store as it was and hands out no document, or it binds the store and
/// hands out the document of the store as it then is.
pub proof fn lemma_store_changes_are_handed_out(
    store: Map<Seq<char>, Seq<char>>,
    token: Seq<char>,
    text: Seq<char>,
    response: Seq<u8>,
)
    ensures
        ({
            let outcome = response_outcome(store, token, text);
            &&& outcome.persist is Some <==> (outcome.result matches Ok(answer)
                && answer.just_bound)
            &&& outcome.persist is None ==> outcome.store == store
            &&& outcome.persist matches Some(document) ==> document == json_map_text(
                outcome.store,
            )
        }),
        ({
            let outcome = fetch_outcome(store, token, response);
            &&& outcome.persist is Some <==> (outcome.result matches Ok(answer)
                && answer.just_bound)
            &&& outcome.persist is None ==> outcome.store == store
            &&& outcome.persist matches Some(document) ==> document == json_map_text(
                outcome.store,
            )
        }),
{
}

/// Binding happens exactly once: a response that binds leaves the client key
/// absent and the application key present, and the same response delivered
/// again neither binds nor changes the store.
pub proof fn lemma_binding_exactly_once(
    store: Map<Seq<char>, Seq<char>>,
    token: Seq<char>,
    text: Seq<char>,
)
    requires
        response_outcome(store, token, text).result matches Ok(answer) && answer.just_bound,
    ensures
        ({
            let first = response_outcome(store, token, text);
            let second = response_outcome(first.store, token, text);
            &&& !is_bound(store)
            &&& is_bound(first.store)
            &&& !first.store.contains_key(ConfigKeys::KEY_CLIENT_KEY.name())
            &&& second.store == first.store
            &&& second.result matches Ok(answer) ==> !answer.just_bound
        }),
{
    let envelope = envelope_of(text);
    let binding = binding_of(
        store,
        token,
        envelope.encrypted_app_key->Some_0,
        envelope.owner_public_key,
    );
    lemma_binding_rotates_keys(store, binding->Some_0);
}

/// One record that fails never fails the fetch: in a response in which, of
/// the records outside any folder, exactly the one at `k` does not open, the
/// answer begins with every other such record, opened and in the order of
/// the response, and its failed records begin with one that names the
/// identifier of the record at `k`. Behind them stands what the folders come
/// to on their own, which is nothing where the response has no folders.
pub proof fn lemma_fetch_isolates_failure(key: Seq<u8>, envelope: EnvelopeView, k: int)
    requires
        0 <= k < envelope.records.len(),
        opened_record(key, None, envelope.records[k]) is Err,
        forall|i: int|
            0 <= i < envelope.records.len() && i != k ==> (#[trigger] opened_record(
                key,
                None,
                envelope.records[i],
            )) is Ok,
    ensures
        ({
            let answer = data_response(key, envelope);
            let inside = with_folders(nothing_opened(), key, envelope.folders);
            let outside = envelope.records.len() - 1;
            &&& answer.records.len() == outside + inside.records.len()
            &&& answer.bad_records.len() == 1 + inside.bad_records.len()
            &&& answer.bad_records[0].uid == envelope.records[k].uid
            &&& answer.bad_records[0] == opened_record(key, None, envelope.records[k])->Err_0
            &&& answer.bad_folders == inside.bad_folders
            &&& forall|i: int|
                0 <= i < k ==> Ok::<SecretRecordView, BadItem>(#[trigger] answer.records[i])
                    == opened_record(key, None, envelope.records[i])
            &&& forall|i: int|
                k <= i < outside ==> Ok::<SecretRecordView, BadItem>(#[trigger] answer.records[i])
                    == opened_record(key, None, envelope.records[i + 1])
            &&& forall|j: int|
                0 <= j < inside.records.len() ==> answer.records[outside + j]
                    == #[trigger] inside.records[j]
            &&& forall|j: int|
                0 <= j < inside.bad_records.len() ==> answer.bad_records[1 + j]
                    == #[trigger] inside.bad_records[j]
            &&& envelope.folders.len() == 0 ==> inside.records.len() == 0
                && inside.bad_records.len() == 0 && inside.bad_folders.len() == 0
        }),
{
    lemma_partial_failure_isolation(key, None, envelope.records, k);
    lemma_opened_records_count(key, None, envelope.records);
    lemma_folders_extend(opened_records(key, None, envelope.records), key, envelope.folders);
}

/// Every step brings a fetch nearer to its end, and the caller is sent on a
/// round trip exactly when the fetch then waits for an answer. So one fetch
/// makes at most two round trips, the second only after a binding. And no
/// step changes the store without handing out its document: the store
/// changes only in the step that binds it, whose action carries the document
/// to persist.
pub proof fn lemma_fetch_ends(
    store: Map<Seq<char>, Seq<char>>,
    token: Seq<char>,
    full_response: bool,
    phase: FetchPhase,
    event: FetchEvent,
)
    ensures
        ({
            let step = next_step(store, token, full_response, phase, event);
            &&& phase != FetchPhase::Done ==> steps_left(step.phase) < steps_left(phase)
            &&& phase == FetchPhase::Done ==> step.phase == FetchPhase::Done
            &&& step.action is Post <==> (step.phase == FetchPhase::AwaitingResponse || step.phase
                == FetchPhase::AwaitingRetry)
            &&& step.phase == FetchPhase::AwaitingRetry ==> phase == FetchPhase::AwaitingResponse
                && is_bound(step.store) && !is_bound(store)
            &&& step.store != store ==> step.action == (ActionView::Post {
                endpoint: secrets_endpoint(),
                persist: Some(json_map_text(step.store)),
            })
        }),
{
    if let FetchEvent::Response(bytes) = event {
        if takes_response(store, phase) {
            let outcome = fetch_outcome(store, token, bytes@);
            lemma_store_changes_are_handed_out(store, token, Seq::empty(), bytes@);
            if is_bound(store) {
                lemma_bound_store_is_stable(store, token, Seq::empty(), bytes@);
            }
            if outcome.persist is Some {
                let text = utf8_lossy_text(
                    decrypt_outcome(bytes@, active_key(store, token)->Ok_0)->Ok_0,
                );
                lemma_binding_exactly_once(store, token, text);
            }
        }
    }
}

/// The manager of one key store.
pub struct SecretsManager {
    hostname: String,
    token: String,
    config: FileKeyValueStorage,
}

impl SecretsManager {
    /// The mapping that the key store holds.
    pub closed spec fn store(&self) -> Map<Seq<char>, Seq<char>> {
        self.config@
    }

    /// The one-time token that the manager was made with.
    pub closed spec fn token_text(&self) -> Seq<char> {
        self.token@
    }

    /// The host of the vault.
    pub closed spec fn hostname_text(&self) -> Seq<char> {
        self.hostname@
    }

    /// The location that backs the key store.
    pub closed spec fn store_location(&self) -> Seq<char> {
        self.config.location()
    }

    /// Whether `after` is this manager but for its key store.
    pub open spec fn same_identity(&self, after: &SecretsManager) -> bool {
        &&& after.token_text() == self.token_text()
        &&& after.hostname_text() == self.hostname_text()
        &&& after.store_location() == self.store_location()
    }

    /// Whether `text` is empty or white space throughout.
    pub fn is_blank(text: &str) -> (r: bool)
        ensures
            r == blank(text@),
    {
        let len = text.unicode_len();
        let mut i: usize = 0;
        while i < len
            invariant
                i <= len,
                len == text@.len(),
                forall|j: int| 0 <= j < i ==> is_white_space(#[trigger] text@[j]),
            decreases len - i,
        {
            let code = text.get_char(i) as u32;
            let white = (0x09 <= code && code <= 0x0d) || code == 0x20 || code == 0x85 || code
                == 0xa0 || code == 0x1680 || (0x2000 <= code && code <= 0x200a) || code == 0x2028
                || code == 0x2029 || code == 0x202f || code == 0x205f || code == 0x3000;
            if !white {
                return false;
            }
            i = i + 1;
        }
        true
    }

    /// A manager for `config`. A blank host, one that is empty or white space
    /// throughout, stands for the default one.
    pub fn new(hostname: String, token: String, config: FileKeyValueStorage) -> (r: Self)
        ensures
            r.hostname_text() == if blank(hostname@) {
                default_hostname()
            } else {
                hostname@
            },
            r.token_text() == token@,
            r.store() == config@,
            r.store_location() == config.location(),
    {
        let hostname = if SecretsManager::is_blank(hostname.as_str()) {
            "keepersecurity.com".to_owned()
        } else {
            hostname
        };
        SecretsManager { hostname, token, config }
    }

    /// The host of the vault.
    pub fn hostname(&self) -> (r: &str)
        ensures
            r@ == self.hostname_text(),
    {
        self.hostname.as_str()
    }

    /// The key store.
    pub fn config(&self) -> (r: &FileKeyValueStorage)
        ensures
            r@ == self.store(),
            r.location() == self.store_location(),
    {
        &self.config
    }

    /// Whether the store holds an application key.
    pub fn is_bound(&self) -> (r: bool)
        ensures
            r == is_bound(self.store()),
    {
        self.config.get(ConfigKeys::KEY_APP_KEY.as_str()).is_some()
    }

    /// The text of the client key.
    fn client_key_text(&self) -> (r: String)
        ensures
            r@ == client_key_text(self.store(), self.token_text()),
    {
        match self.config.get(ConfigKeys::KEY_CLIENT_KEY.as_str()) {
            Some(text) => text.clone(),
            None => self.token.clone(),
        }
    }

    /// The text of the application key.
    fn app_key_text(&self) -> (r: String)
        ensures
            r@ == app_key_text(self.store()),
    {
        match self.config.get(ConfigKeys::KEY_APP_KEY.as_str()) {
            Some(text) => text.clone(),
            None => String::new(),
        }
    }

    /// Works out the keys that a bind response yields.
    fn binding(&self, offer: &str, owner: &Option<String>) -> (r: Option<(Vec<u8>, Option<Vec<u8>>)>)
        ensures
            match binding_of(self.store(), self.token_text(), offer@, optional_text(*owner)) {
                None => r is None,
                Some(binding) => r matches Some(keys) && keys.0@ == binding.app_key && match (
                    binding.owner_public_key
                ) {
                    None => keys.1 is None,
                    Some(bytes) => keys.1 matches Some(k) && k@ == bytes,
                },
            },
            r matches Some(keys) ==> crate::utils::encodable(keys.0@.len()) && (keys.1 matches Some(
                k,
            ) ==> crate::utils::encodable(k@.len())),
    {
        let client_text = self.client_key_text();
        let client_key = match url_safe_str_to_bytes(client_text.as_str()) {
            Ok(key) => key,
            Err(_) => {
                return None;
            },
        };
        let app_key = match unseal(client_key.as_slice(), offer) {
            Ok(key) => key,
            Err(_) => {
                return None;
            },
        };
        match owner {
            None => Some((app_key, None)),
            Some(text) => match url_safe_str_to_bytes(text.as_str()) {
                Ok(bytes) => Some((app_key, Some(bytes))),
                Err(_) => None,
            },
        }
    }

    /// Takes in a decrypted response. An offered application key binds a
    /// store that is not bound yet: the key is opened under the client key
    /// and stored, the client key is deleted, and the response counts as
    /// bound, with no records. Any other response is decrypted record by
    /// record under the application key. Where the store was changed, the
    /// result holds the document to persist: the changes of one binding
    /// reach the store's location as one write.
    pub fn process_decrypted_response(&mut self, decrypted_response_str: &str) -> (r: Result<
        Processed,
        FetchError,
    >)
        ensures
            old(self).same_identity(final(self)),
            ({
                let outcome = response_outcome(
                    old(self).store(),
                    old(self).token_text(),
                    decrypted_response_str@,
                );
                &&& final(self).store() == outcome.store
                &&& is_result(r, outcome)
            }),
            r matches Ok(processed) ==> (processed.persist matches Some(document) ==> reopened(
                document@,
            ) == final(self).store()),
    {
        let envelope = Envelope::parse(decrypted_response_str);
        let ghost model = envelope@;
        let Envelope { encrypted_app_key, owner_public_key, records, folders, warnings } = envelope;
        let offered = if self.is_bound() {
            None
        } else {
            encrypted_app_key
        };
        match offered {
            Some(offer) => {
                match self.binding(offer.as_str(), &owner_public_key) {
                    None => Err(FetchError::BindingFailed),
                    Some((app_key, owner)) => {
                        let _ = self.config.set(
                            ConfigKeys::KEY_APP_KEY.as_str(),
                            bytes_to_base64(app_key.as_slice()),
                        );
                        let rotated = self.config.delete(ConfigKeys::KEY_CLIENT_KEY.as_str());
                        let document = match owner {
                            Some(bytes) => self.config.set(
                                ConfigKeys::KEY_OWNER_PUBLIC_KEY.as_str(),
                                bytes_to_base64(bytes.as_slice()),
                            ),
                            None => rotated,
                        };
                        let answer = RecordsResponse {
                            records: Vec::new(),
                            just_bound: true,
                            warnings,
                            bad_records: Vec::new(),
                            bad_folders: Vec::new(),
                        };
                        assert(answer@.records =~= Seq::<SecretRecordView>::empty());
                        assert(answer@.bad_records =~= Seq::<BadItem>::empty());
                        assert(answer@.bad_folders =~= Seq::<BadItem>::empty());
                        Ok(Processed { response: answer, persist: Some(document) })
                    },
                }
            },
            None => {
                let key_text = self.app_key_text();
                match base64_to_bytes(key_text.as_str()) {
                    Err(_) => Err(FetchError::Encoding),
                    Ok(key) => {
                        let Batch { records, bad_records, bad_folders } = open_payload(
                            key.as_slice(),
                            &records,
                            &folders,
                        );
                        Ok(
                            Processed {
                                response: RecordsResponse {
                                    records,
                                    just_bound: false,
                                    warnings,
                                    bad_records,
                                    bad_folders,
                                },
                                persist: None,
                            },
                        )
                    },
                }
            },
        }
    }

    /// Takes in the raw bytes of a response: opens them under the active
    /// key, reads them as text and processes the text. Where the store was
    /// changed, the result holds the document to persist.
    pub fn fetch_and_decrypt_secrets(&mut self, response: &[u8]) -> (r: Result<
        Processed,
        FetchError,
    >)
        ensures
            old(self).same_identity(final(self)),
            ({
                let outcome = fetch_outcome(old(self).store(), old(self).token_text(), response@);
                &&& final(self).store() == outcome.store
                &&& is_result(r, outcome)
            }),
            r matches Ok(processed) ==> (processed.persist matches Some(document) ==> reopened(
                document@,
            ) == final(self).store()),
    {
        let decoded = if self.is_bound() {
            let text = self.app_key_text();
            base64_to_bytes(text.as_str())
        } else {
            let text = self.client_key_text();
            url_safe_str_to_bytes(text.as_str())
        };
        let key = match decoded {
            Ok(key) => key,
            Err(_) => {
                return Err(FetchError::Encoding);
            },
        };
        match CryptoUtils::decrypt_aes(response, key.as_slice()) {
            Err(e) => Err(FetchError::Crypto(e)),
            Ok(plaintext) => {
                let text = lossy_text(plaintext.as_slice());
                self.process_decrypted_response(text.as_str())
            },
        }
    }

    /// Picks what the caller asked for: the records alone, or the whole
    /// response.
    pub fn select(response: RecordsResponse, full_response: bool) -> (r: FetchOutput)
        ensures
            is_output(r, selected(response@, full_response)),
    {
        if full_response {
            FetchOutput::Full(response)
        } else {
            FetchOutput::Records(response.records)
        }
    }

    /// One step of a fetch for the records in `uids`, or for all records.
    /// See `get_secrets_with_options`.
    pub fn get_secrets(
        &mut self,
        uids: Option<Vec<String>>,
        full_response: bool,
        phase: FetchPhase,
        event: FetchEvent,
    ) -> (r: FetchStep)
        ensures
            old(self).same_identity(final(self)),
            ({
                let step = next_step(
                    old(self).store(),
                    old(self).token_text(),
                    full_response,
                    phase,
                    event,
                );
                &&& final(self).store() == step.store
                &&& r.phase == step.phase
                &&& r.action matches FetchAction::Post { query, .. } ==> query.records_filter
                    == uids && query.folders_filter is None
                &&& match step.action {
                    ActionView::Post { endpoint, persist } => r.action matches FetchAction::Post {
                        endpoint: e,
                        persist: p,
                        ..
                    } && e@ == endpoint && optional_text(p) == persist,
                    ActionView::Deliver(output) => r.action matches FetchAction::Deliver(o)
                        && is_output(o, output),
                    ActionView::Fail(error) => r.action matches FetchAction::Fail(e) && e == error,
                }
            }),
    {
        let query_options = QueryOptions { records_filter: uids, folders_filter: None };
        self.get_secrets_with_options(query_options, full_response, phase, event)
    }

    /// One step of a fetch. The caller starts in `FetchPhase::Idle` with
    /// `FetchEvent::Start`, does what the returned action says, and comes
    /// back with the returned phase and the event that followed, until the
    /// action is `Deliver` or `Fail`. A response that binds the store sends
    /// the caller to persist the store and on one more round trip, and on no
    /// third: the answer to a retry is taken only by a store that is bound.
    pub fn get_secrets_with_options(
        &mut self,
        query_options: QueryOptions,
        full_response: bool,
        phase: FetchPhase,
        event: FetchEvent,
    ) -> (r: FetchStep)
        ensures
            old(self).same_identity(final(self)),
            ({
                let step = next_step(
                    old(self).store(),
                    old(self).token_text(),
                    full_response,
                    phase,
                    event,
                );
                &&& final(self).store() == step.store
                &&& r.phase == step.phase
                &&& is_action(r.action, step.action, query_options)
            }),
    {
        let waiting = match phase {
            FetchPhase::AwaitingResponse => true,
            FetchPhase::AwaitingRetry => true,
            _ => false,
        };
        let retry = match phase {
            FetchPhase::AwaitingRetry => true,
            _ => false,
        };
        let idle = match phase {
            FetchPhase::Idle => true,
            _ => false,
        };
        let out_of_turn = FetchStep {
            phase: FetchPhase::Done,
            action: FetchAction::Fail(FetchError::OutOfTurn),
        };
        match event {
            FetchEvent::Start => {
                if idle {
                    FetchStep {
                        phase: FetchPhase::AwaitingResponse,
                        action: FetchAction::Post {
                            endpoint: "get_secret".to_owned(),
                            query: query_options,
                            persist: None,
                        },
                    }
                } else {
                    out_of_turn
                }
            },
            FetchEvent::Response(bytes) => {
                if !waiting || (retry && !self.is_bound()) {
                    return out_of_turn;
                }
                match self.fetch_and_decrypt_secrets(bytes.as_slice()) {
                    Err(e) => FetchStep { phase: FetchPhase::Done, action: FetchAction::Fail(e) },
                    Ok(Processed { response, persist }) => match persist {
                        Some(document) => FetchStep {
                            phase: FetchPhase::AwaitingRetry,
                            action: FetchAction::Post {
                                endpoint: "get_secret".to_owned(),
                                query: query_options,
                                persist: Some(document),
                            },
                        },
                        None => FetchStep {
                            phase: FetchPhase::Done,
                            action: FetchAction::Deliver(
                                SecretsManager::select(response, full_response),
                            ),
                        },
                    },
                }
            },
            FetchEvent::TransportFailed => {
                if waiting {
                    FetchStep {
                        phase: FetchPhase::Done,
                        action: FetchAction::Fail(FetchError::Transport),
                    }
                } else {
                    out_of_turn
                }
            },
            FetchEvent::StorageFailed => {
                if waiting {
                    FetchStep { phase: FetchPhase::Done, action: FetchAction::Fail(FetchError::Io) }
                } else {
                    out_of_turn
                }
            },
        }
    }
}

} // verus!
