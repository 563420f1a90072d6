//! The decrypt pipeline: folder keys and record keys are unwrapped, record
//! data is opened, and whatever fails is set aside without stopping the rest.

use crate::crypto::{decrypt_outcome, CryptoError, CryptoUtils};
use crate::utils::{encodable, lemma_encodable_shorter, url_safe_decoded, url_safe_str_to_bytes};
use crate::wire::{
    folder_views, optional_text, record_views, WireFolder, WireFolderView, WireRecord,
    WireRecordView,
};
use vstd::prelude::*;
use vstd::utf8::encode_utf8;

verus! {

/// Why one sealed text could not be opened.
#[derive(Debug, Clone, Copy, PartialEq, Eq, Structural)]
pub enum ItemError {
    /// The text is not URL-safe base64.
    Encoding,
    /// The envelope did not open under the key.
    Crypto(CryptoError),
}

/// A record that was decrypted.
#[derive(Debug)]
pub struct SecretRecord {
    /// The record's identifier.
    pub uid: String,
    /// The record's type, empty where the vault names none.
    pub record_type: String,
    /// The folder that holds the record, where one does.
    pub folder_uid: Option<String>,
    /// The record's data in the clear.
    pub data: Vec<u8>,
}

/// A record that could not be decrypted, named by its identifier.
#[derive(Debug)]
pub struct RecordDecryptError {
    /// The record's identifier.
    pub uid: String,
    /// What failed.
    pub cause: ItemError,
}

/// A folder that could not be decrypted, named by its identifier.
#[derive(Debug)]
pub struct FolderDecryptError {
    /// The folder's identifier.
    pub uid: String,
    /// What failed.
    pub cause: ItemError,
}

/// The model of a `SecretRecord`.
pub struct SecretRecordView {
    pub uid: Seq<char>,
    pub record_type: Seq<char>,
    pub folder_uid: Option<Seq<char>>,
    pub data: Seq<u8>,
}

/// The model of a `RecordDecryptError` and of a `FolderDecryptError`.
pub struct BadItem {
    pub uid: Seq<char>,
    pub cause: ItemError,
}

impl View for SecretRecord {
    type V = SecretRecordView;

    open spec fn view(&self) -> SecretRecordView {
        SecretRecordView {
            uid: self.uid@,
            record_type: self.record_type@,
            folder_uid: optional_text(self.folder_uid),
            data: self.data@,
        }
    }
}

impl View for RecordDecryptError {
    type V = BadItem;

    open spec fn view(&self) -> BadItem {
        BadItem { uid: self.uid@, cause: self.cause }
    }
}

impl View for FolderDecryptError {
    type V = BadItem;

    open spec fn view(&self) -> BadItem {
        BadItem { uid: self.uid@, cause: self.cause }
    }
}

/// The models of a list of decrypted records.
pub open spec fn secret_views(records: Seq<SecretRecord>) -> Seq<SecretRecordView> {
    records.map_values(|r: SecretRecord| r@)
}

/// The models of a list of failed records.
pub open spec fn bad_record_views(bad: Seq<RecordDecryptError>) -> Seq<BadItem> {
    bad.map_values(|b: RecordDecryptError| b@)
}

/// The models of a list of failed folders.
pub open spec fn bad_folder_views(bad: Seq<FolderDecryptError>) -> Seq<BadItem> {
    bad.map_values(|b: FolderDecryptError| b@)
}

/// What one batch of items came to: the records that opened, in the order of
/// the response, and the records and folders that did not, in the order in
/// which they were met.
pub struct Opened {
    pub records: Seq<SecretRecordView>,
    pub bad_records: Seq<BadItem>,
    pub bad_folders: Seq<BadItem>,
}

/// What the sealed text `text` opens to under `key`: the text is URL-safe
/// base64 of an envelope.
pub open spec fn unsealed(key: Seq<u8>, text: Seq<char>) -> Result<Seq<u8>, ItemError> {
    match url_safe_decoded(encode_utf8(text)) {
        Err(_) => Err(ItemError::Encoding),
        Ok(envelope) => match decrypt_outcome(envelope, key) {
            Ok(plaintext) => Ok(plaintext),
            Err(e) => Err(ItemError::Crypto(e)),
        },
    }
}

/// What one record comes to under the key of its parent: its key is
/// unwrapped under the parent's key, its data is opened under its own key.
pub open spec fn opened_record(
    parent_key: Seq<u8>,
    folder_uid: Option<Seq<char>>,
    record: WireRecordView,
) -> Result<SecretRecordView, BadItem> {
    match unsealed(parent_key, record.encrypted_key) {
        Err(cause) => Err(BadItem { uid: record.uid, cause }),
        Ok(record_key) => match unsealed(record_key, record.encrypted_data) {
            Err(cause) => Err(BadItem { uid: record.uid, cause }),
            Ok(data) => Ok(
                SecretRecordView {
                    uid: record.uid,
                    record_type: record.record_type,
                    folder_uid,
                    data,
                },
            ),
        },
    }
}

/// What a list of records comes to under the key of their parent.
pub open spec fn opened_records(
    parent_key: Seq<u8>,
    folder_uid: Option<Seq<char>>,
    records: Seq<WireRecordView>,
) -> Opened
    decreases records.len(),
{
    if records.len() == 0 {
        Opened { records: Seq::empty(), bad_records: Seq::empty(), bad_folders: Seq::empty() }
    } else {
        let before = opened_records(parent_key, folder_uid, records.drop_last());
        match opened_record(parent_key, folder_uid, records.last()) {
            Ok(record) => Opened { records: before.records.push(record), ..before },
            Err(bad) => Opened { bad_records: before.bad_records.push(bad), ..before },
        }
    }
}

/// The key of a folder: it is unwrapped under the application key, and the
/// folder's metadata, where it has any, must open under it.
pub open spec fn folder_key(app_key: Seq<u8>, folder: WireFolderView) -> Result<Seq<u8>, BadItem> {
    match unsealed(app_key, folder.encrypted_key) {
        Err(cause) => Err(BadItem { uid: folder.uid, cause }),
        Ok(key) => match folder.encrypted_data {
            None => Ok(key),
            Some(metadata) => match unsealed(key, metadata) {
                Err(cause) => Err(BadItem { uid: folder.uid, cause }),
                Ok(_) => Ok(key),
            },
        },
    }
}

/// What one folder adds to a batch: its records where its key unwraps, and
/// one entry among the failed folders where it does not.
pub open spec fn with_folder(before: Opened, app_key: Seq<u8>, folder: WireFolderView) -> Opened {
    match folder_key(app_key, folder) {
        Err(bad) => Opened { bad_folders: before.bad_folders.push(bad), ..before },
        Ok(key) => {
            let inside = opened_records(key, Some(folder.uid), folder.records);
            Opened {
                records: before.records + inside.records,
                bad_records: before.bad_records + inside.bad_records,
                bad_folders: before.bad_folders,
            }
        },
    }
}

/// What a list of folders adds to the batch `start`.
pub open spec fn with_folders(start: Opened, app_key: Seq<u8>, folders: Seq<WireFolderView>) -> Opened
    decreases folders.len(),
{
    if folders.len() == 0 {
        start
    } else {
        with_folder(with_folders(start, app_key, folders.drop_last()), app_key, folders.last())
    }
}

/// The batch that holds nothing.
pub open spec fn nothing_opened() -> Opened {
    Opened { records: Seq::empty(), bad_records: Seq::empty(), bad_folders: Seq::empty() }
}

/// What a response comes to under the application key: the records outside
/// any folder first, then those of each folder in turn.
pub open spec fn opened_payload(
    app_key: Seq<u8>,
    records: Seq<WireRecordView>,
    folders: Seq<WireFolderView>,
) -> Opened {
    with_folders(opened_records(app_key, None, records), app_key, folders)
}

/// One record more: the batch of a list with one record behind it.
pub proof fn lemma_opened_records_push(
    parent_key: Seq<u8>,
    folder_uid: Option<Seq<char>>,
    records: Seq<WireRecordView>,
    next: WireRecordView,
)
    ensures
        opened_records(parent_key, folder_uid, records.push(next)) == ({
            let before = opened_records(parent_key, folder_uid, records);
            match opened_record(parent_key, folder_uid, next) {
                Ok(record) => Opened { records: before.records.push(record), ..before },
                Err(bad) => Opened { bad_records: before.bad_records.push(bad), ..before },
            }
        }),
{
    assert(records.push(next).drop_last() =~= records);
}

/// What folders add does not depend on what was gathered before them: the
/// batch after the folders is the batch before them with the folders' own
/// batch behind it. So nothing that fails outside a folder touches what the
/// folders come to, and nothing in a folder touches what came before.
pub proof fn lemma_folders_extend(start: Opened, app_key: Seq<u8>, folders: Seq<WireFolderView>)
    ensures
        ({
            let all = with_folders(start, app_key, folders);
            let added = with_folders(nothing_opened(), app_key, folders);
            &&& all.records == start.records + added.records
            &&& all.bad_records == start.bad_records + added.bad_records
            &&& all.bad_folders == start.bad_folders + added.bad_folders
        }),
    decreases folders.len(),
{
    let all = with_folders(start, app_key, folders);
    let added = with_folders(nothing_opened(), app_key, folders);
    if folders.len() == 0 {
        assert(all.records =~= start.records + added.records);
        assert(all.bad_records =~= start.bad_records + added.bad_records);
        assert(all.bad_folders =~= start.bad_folders + added.bad_folders);
    } else {
        let front = folders.drop_last();
        lemma_folders_extend(start, app_key, front);
        let all_front = with_folders(start, app_key, front);
        let added_front = with_folders(nothing_opened(), app_key, front);
        match folder_key(app_key, folders.last()) {
            Err(bad) => {
                assert(all.bad_folders =~= start.bad_folders + added.bad_folders);
            },
            Ok(key) => {
                let inside = opened_records(key, Some(folders.last().uid), folders.last().records);
                assert(all.records =~= start.records + added.records);
                assert(all.bad_records =~= start.bad_records + added.bad_records);
            },
        }
    }
}

/// Every record of a batch is either among the opened or among the failed,
/// and a batch of records reports no folder.
pub proof fn lemma_opened_records_count(
    parent_key: Seq<u8>,
    folder_uid: Option<Seq<char>>,
    records: Seq<WireRecordView>,
)
    ensures
        ({
            let batch = opened_records(parent_key, folder_uid, records);
            &&& batch.records.len() + batch.bad_records.len() == records.len()
            &&& batch.bad_folders.len() == 0
        }),
    decreases records.len(),
{
    if records.len() > 0 {
        lemma_opened_records_count(parent_key, folder_uid, records.drop_last());
    }
}

/// A record that fails does not touch its siblings: where exactly the record
/// at `k` fails, the batch holds every other record, opened and in order, and
/// one failed record, which names the identifier of the record at `k`.
pub proof fn lemma_partial_failure_isolation(
    parent_key: Seq<u8>,
    folder_uid: Option<Seq<char>>,
    records: Seq<WireRecordView>,
    k: int,
)
    requires
        0 <= k < records.len(),
        opened_record(parent_key, folder_uid, records[k]) is Err,
        forall|i: int|
            0 <= i < records.len() && i != k ==> (#[trigger] opened_record(
                parent_key,
                folder_uid,
                records[i],
            )) is Ok,
    ensures
        ({
            let batch = opened_records(parent_key, folder_uid, records);
            &&& batch.records.len() == records.len() - 1
            &&& batch.bad_records.len() == 1
            &&& batch.bad_records[0].uid == records[k].uid
            &&& batch.bad_records[0] == opened_record(parent_key, folder_uid, records[k])->Err_0
            &&& forall|i: int|
                0 <= i < k ==> Ok::<SecretRecordView, BadItem>(#[trigger] batch.records[i])
                    == opened_record(parent_key, folder_uid, records[i])
            &&& forall|i: int|
                k <= i < records.len() - 1 ==> Ok::<SecretRecordView, BadItem>(
                    #[trigger] batch.records[i],
                ) == opened_record(parent_key, folder_uid, records[i + 1])
        }),
    decreases records.len(),
{
    let front = records.drop_last();
    let last = records.len() - 1;
    if k == last {
        lemma_all_open(parent_key, folder_uid, front);
    } else {
        assert(front[k] == records[k]);
        assert forall|i: int| 0 <= i < front.len() && i != k implies (#[trigger] opened_record(
            parent_key,
            folder_uid,
            front[i],
        )) is Ok by {
            assert(front[i] == records[i]);
        }
        lemma_partial_failure_isolation(parent_key, folder_uid, front, k);
        assert(opened_record(parent_key, folder_uid, records[last]) is Ok);
    }
}

/// Where every record opens, the batch holds them all, in order, and no
/// failed record.
pub proof fn lemma_all_open(
    parent_key: Seq<u8>,
    folder_uid: Option<Seq<char>>,
    records: Seq<WireRecordView>,
)
    requires
        forall|i: int|
            0 <= i < records.len() ==> (#[trigger] opened_record(
                parent_key,
                folder_uid,
                records[i],
            )) is Ok,
    ensures
        ({
            let batch = opened_records(parent_key, folder_uid, records);
            &&& batch.records.len() == records.len()
            &&& batch.bad_records.len() == 0
            &&& forall|i: int|
                0 <= i < records.len() ==> Ok::<SecretRecordView, BadItem>(
                    #[trigger] batch.records[i],
                ) == opened_record(parent_key, folder_uid, records[i])
        }),
    decreases records.len(),
{
    if records.len() > 0 {
        let front = records.drop_last();
        assert forall|i: int| 0 <= i < front.len() implies (#[trigger] opened_record(
            parent_key,
            folder_uid,
            front[i],
        )) is Ok by {
            assert(front[i] == records[i]);
        }
        lemma_all_open(parent_key, folder_uid, front);
        assert(opened_record(parent_key, folder_uid, records[records.len() - 1]) is Ok);
    }
}

/// Whether the executable result `r` is the outcome `expected`.
pub open spec fn is_unsealed(r: Result<Vec<u8>, ItemError>, expected: Result<Seq<u8>, ItemError>) -> bool {
    match expected {
        Ok(bytes) => r is Ok && r->Ok_0@ == bytes,
        Err(e) => r is Err && r->Err_0 == e,
    }
}

/// Opens a sealed text under `key`: decodes the URL-safe base64, then opens
/// the envelope.
pub fn unseal(key: &[u8], text: &str) -> (r: Result<Vec<u8>, ItemError>)
    ensures
        is_unsealed(r, unsealed(key@, text@)),
        r matches Ok(plaintext) ==> encodable(plaintext@.len()),
{
    match url_safe_str_to_bytes(text) {
        Err(_) => Err(ItemError::Encoding),
        Ok(envelope) => match CryptoUtils::decrypt_aes(envelope.as_slice(), key) {
            Ok(plaintext) => {
                proof {
                    lemma_encodable_shorter(plaintext@.len(), envelope@.len());
                }
                Ok(plaintext)
            },
            Err(e) => Err(ItemError::Crypto(e)),
        },
    }
}

/// Copies an optional text.
fn copy_optional(text: &Option<String>) -> (r: Option<String>)
    ensures
        optional_text(r) == optional_text(*text),
{
    match text {
        Some(t) => Some(t.clone()),
        None => None,
    }
}

/// What the pipeline gathers while it runs.
pub struct Batch {
    /// The records that opened, in the order of the response.
    pub records: Vec<SecretRecord>,
    /// The records that did not open, in the order in which they were met.
    pub bad_records: Vec<RecordDecryptError>,
    /// The folders that did not open, in the order in which they were met.
    pub bad_folders: Vec<FolderDecryptError>,
}

impl View for Batch {
    type V = Opened;

    open spec fn view(&self) -> Opened {
        Opened {
            records: secret_views(self.records@),
            bad_records: bad_record_views(self.bad_records@),
            bad_folders: bad_folder_views(self.bad_folders@),
        }
    }
}

impl Batch {
    /// A batch that holds nothing.
    pub fn new() -> (r: Batch)
        ensures
            r@ == (Opened {
                records: Seq::empty(),
                bad_records: Seq::empty(),
                bad_folders: Seq::empty(),
            }),
    {
        let r = Batch { records: Vec::new(), bad_records: Vec::new(), bad_folders: Vec::new() };
        assert(r@.records =~= Seq::empty());
        assert(r@.bad_records =~= Seq::empty());
        assert(r@.bad_folders =~= Seq::empty());
        r
    }
}

/// Decrypts one record under the key of its parent.
pub fn open_record(parent_key: &[u8], folder_uid: &Option<String>, record: &WireRecord) -> (r:
    Result<SecretRecord, RecordDecryptError>)
    ensures
        match opened_record(parent_key@, optional_text(*folder_uid), record@) {
            Ok(opened) => r is Ok && r->Ok_0@ == opened,
            Err(bad) => r is Err && r->Err_0@ == bad,
        },
{
    let record_key = match unseal(parent_key, record.encrypted_key.as_str()) {
        Ok(key) => key,
        Err(cause) => {
            return Err(RecordDecryptError { uid: record.uid.clone(), cause });
        },
    };
    match unseal(record_key.as_slice(), record.encrypted_data.as_str()) {
        Ok(data) => Ok(
            SecretRecord {
                uid: record.uid.clone(),
                record_type: record.record_type.clone(),
                folder_uid: copy_optional(folder_uid),
                data,
            },
        ),
        Err(cause) => Err(RecordDecryptError { uid: record.uid.clone(), cause }),
    }
}

/// Decrypts a list of records under the key of their parent and adds what
/// they come to behind what `batch` holds. A record that fails is set aside
/// and the rest goes on.
pub fn open_records(
    parent_key: &[u8],
    folder_uid: &Option<String>,
    records: &Vec<WireRecord>,
    batch: &mut Batch,
)
    ensures
        ({
            let added = opened_records(
                parent_key@,
                optional_text(*folder_uid),
                record_views(records@),
            );
            &&& final(batch)@.records == old(batch)@.records + added.records
            &&& final(batch)@.bad_records == old(batch)@.bad_records + added.bad_records
            &&& final(batch)@.bad_folders == old(batch)@.bad_folders
        }),
{
    let ghost folder = optional_text(*folder_uid);
    let ghost all = record_views(records@);
    let mut i: usize = 0;
    assert(all.take(0) =~= Seq::<WireRecordView>::empty());
    assert(batch@.records =~= old(batch)@.records + Seq::<SecretRecordView>::empty());
    assert(batch@.bad_records =~= old(batch)@.bad_records + Seq::<BadItem>::empty());
    while i < records.len()
        invariant
            i <= records.len(),
            folder == optional_text(*folder_uid),
            all == record_views(records@),
            batch@.records == old(batch)@.records + opened_records(
                parent_key@,
                folder,
                all.take(i as int),
            ).records,
            batch@.bad_records == old(batch)@.bad_records + opened_records(
                parent_key@,
                folder,
                all.take(i as int),
            ).bad_records,
            batch@.bad_folders == old(batch)@.bad_folders,
        decreases records.len() - i,
    {
        let ghost before = batch@;
        let ghost done = opened_records(parent_key@, folder, all.take(i as int));
        proof {
            lemma_opened_records_push(parent_key@, folder, all.take(i as int), all[i as int]);
            assert(all.take(i as int).push(all[i as int]) =~= all.take(i + 1));
        }
        match open_record(parent_key, folder_uid, &records[i]) {
            Ok(record) => {
                batch.records.push(record);
                assert(batch@.records =~= before.records.push(record@));
                assert(batch@.records =~= old(batch)@.records + done.records.push(record@));
            },
            Err(bad) => {
                batch.bad_records.push(bad);
                assert(batch@.bad_records =~= before.bad_records.push(bad@));
                assert(batch@.bad_records =~= old(batch)@.bad_records + done.bad_records.push(
                    bad@,
                ));
            },
        }
        i = i + 1;
    }
    assert(all.take(records.len() as int) =~= all);
}

/// Unwraps the key of a folder and checks its metadata.
pub fn open_folder(app_key: &[u8], folder: &WireFolder) -> (r: Result<Vec<u8>, FolderDecryptError>)
    ensures
        match folder_key(app_key@, folder@) {
            Ok(key) => r is Ok && r->Ok_0@ == key,
            Err(bad) => r is Err && r->Err_0@ == bad,
        },
{
    let key = match unseal(app_key, folder.encrypted_key.as_str()) {
        Ok(key) => key,
        Err(cause) => {
            return Err(FolderDecryptError { uid: folder.uid.clone(), cause });
        },
    };
    match &folder.encrypted_data {
        None => Ok(key),
        Some(metadata) => match unseal(key.as_slice(), metadata.as_str()) {
            Ok(_) => Ok(key),
            Err(cause) => Err(FolderDecryptError { uid: folder.uid.clone(), cause }),
        },
    }
}

/// Decrypts a response under the application key: the records outside any
/// folder, then each folder and its records. One item that fails never stops
/// the others.
pub fn open_payload(app_key: &[u8], records: &Vec<WireRecord>, folders: &Vec<WireFolder>) -> (r:
    Batch)
    ensures
        r@ == opened_payload(app_key@, record_views(records@), folder_views(folders@)),
{
    let mut batch = Batch::new();
    let no_folder: Option<String> = None;
    open_records(app_key, &no_folder, records, &mut batch);
    let ghost start = opened_records(app_key@, None, record_views(records@));
    proof {
        lemma_opened_records_count(app_key@, None, record_views(records@));
        assert(batch@.records =~= start.records);
        assert(batch@.bad_records =~= start.bad_records);
        assert(batch@.bad_folders =~= start.bad_folders);
    }
    let ghost all = folder_views(folders@);
    let mut i: usize = 0;
    assert(all.take(0) =~= Seq::<WireFolderView>::empty());
    while i < folders.len()
        invariant
            i <= folders.len(),
            all == folder_views(folders@),
            batch@ == with_folders(start, app_key@, all.take(i as int)),
        decreases folders.len() - i,
    {
        let ghost before = batch@;
        proof {
            assert(all.take(i + 1).drop_last() =~= all.take(i as int));
            assert(all.take(i + 1).last() == all[i as int]);
        }
        match open_folder(app_key, &folders[i]) {
            Err(bad) => {
                batch.bad_folders.push(bad);
                assert(batch@.bad_folders =~= before.bad_folders.push(bad@));
            },
            Ok(key) => {
                let owner = Some(folders[i].uid.clone());
                open_records(key.as_slice(), &owner, &folders[i].records, &mut batch);
            },
        }
        i = i + 1;
    }
    assert(all.take(folders.len() as int) =~= all);
    batch
}

} // verus!
