//! What a decrypted vault response holds, read from its JSON text: the offer
//! of an application key, the records, the folders and the warnings.

use crate::dict::Dict;
use crate::json::{json_items, json_members, json_string, parse_items, parse_members, parse_text, texts};
use vstd::prelude::*;

verus! {

/// A record as the vault sends it.
#[derive(Debug)]
pub struct WireRecord {
    /// The record's identifier.
    pub uid: String,
    /// The record's type, empty where the vault names none.
    pub record_type: String,
    /// The record key, sealed under the application key or a folder key.
    pub encrypted_key: String,
    /// The record's data, sealed under the record key.
    pub encrypted_data: String,
}

/// A folder as the vault sends it.
#[derive(Debug)]
pub struct WireFolder {
    /// The folder's identifier.
    pub uid: String,
    /// The folder key, sealed under the application key.
    pub encrypted_key: String,
    /// The folder's metadata, sealed under the folder key, where it has any.
    pub encrypted_data: Option<String>,
    /// The records of the folder, their keys sealed under the folder key.
    pub records: Vec<WireRecord>,
}

/// A decrypted response.
#[derive(Debug)]
pub struct Envelope {
    /// The application key sealed under the client key: the offer to bind.
    pub encrypted_app_key: Option<String>,
    /// The public key of the application's owner.
    pub owner_public_key: Option<String>,
    /// The records outside any folder, in the order of the response.
    pub records: Vec<WireRecord>,
    /// The folders, in the order of the response.
    pub folders: Vec<WireFolder>,
    /// The warnings of the vault, word for word.
    pub warnings: Vec<String>,
}

/// The model of a `WireRecord`.
pub struct WireRecordView {
    pub uid: Seq<char>,
    pub record_type: Seq<char>,
    pub encrypted_key: Seq<char>,
    pub encrypted_data: Seq<char>,
}

/// The model of a `WireFolder`.
pub struct WireFolderView {
    pub uid: Seq<char>,
    pub encrypted_key: Seq<char>,
    pub encrypted_data: Option<Seq<char>>,
    pub records: Seq<WireRecordView>,
}

/// The model of an `Envelope`.
pub struct EnvelopeView {
    pub encrypted_app_key: Option<Seq<char>>,
    pub owner_public_key: Option<Seq<char>>,
    pub records: Seq<WireRecordView>,
    pub folders: Seq<WireFolderView>,
    pub warnings: Seq<Seq<char>>,
}

/// The model of an optional text.
pub open spec fn optional_text(text: Option<String>) -> Option<Seq<char>> {
    match text {
        Some(t) => Some(t@),
        None => None,
    }
}

/// The models of a list of records.
pub open spec fn record_views(records: Seq<WireRecord>) -> Seq<WireRecordView> {
    records.map_values(|r: WireRecord| r@)
}

/// The models of a list of folders.
pub open spec fn folder_views(folders: Seq<WireFolder>) -> Seq<WireFolderView> {
    folders.map_values(|f: WireFolder| f@)
}

impl View for WireRecord {
    type V = WireRecordView;

    open spec fn view(&self) -> WireRecordView {
        WireRecordView {
            uid: self.uid@,
            record_type: self.record_type@,
            encrypted_key: self.encrypted_key@,
            encrypted_data: self.encrypted_data@,
        }
    }
}

impl View for WireFolder {
    type V = WireFolderView;

    open spec fn view(&self) -> WireFolderView {
        WireFolderView {
            uid: self.uid@,
            encrypted_key: self.encrypted_key@,
            encrypted_data: optional_text(self.encrypted_data),
            records: record_views(self.records@),
        }
    }
}

impl View for Envelope {
    type V = EnvelopeView;

    open spec fn view(&self) -> EnvelopeView {
        EnvelopeView {
            encrypted_app_key: optional_text(self.encrypted_app_key),
            owner_public_key: optional_text(self.owner_public_key),
            records: record_views(self.records@),
            folders: folder_views(self.folders@),
            warnings: texts(self.warnings@),
        }
    }
}

/// The members of the JSON object `text`; none where it is no object.
pub open spec fn members_of(text: Seq<char>) -> Map<Seq<char>, Seq<char>> {
    match json_members(text) {
        Some(members) => members,
        None => Map::empty(),
    }
}

/// The member `name` where it is there and is a string.
pub open spec fn member_text(members: Map<Seq<char>, Seq<char>>, name: Seq<char>) -> Option<
    Seq<char>,
> {
    if members.contains_key(name) {
        json_string(members[name])
    } else {
        None
    }
}

/// The member `name` as a string, empty where it is missing or no string.
pub open spec fn member_or_empty(members: Map<Seq<char>, Seq<char>>, name: Seq<char>) -> Seq<char> {
    match member_text(members, name) {
        Some(text) => text,
        None => Seq::empty(),
    }
}

/// The items of the member `name`, none where it is missing or no array.
pub open spec fn member_items(members: Map<Seq<char>, Seq<char>>, name: Seq<char>) -> Seq<
    Seq<char>,
> {
    if members.contains_key(name) {
        match json_items(members[name]) {
            Some(items) => items,
            None => Seq::empty(),
        }
    } else {
        Seq::empty()
    }
}

/// The record that the JSON text `text` stands for.
pub open spec fn wire_record(text: Seq<char>) -> WireRecordView {
    let members = members_of(text);
    WireRecordView {
        uid: member_or_empty(members, "recordUid"@),
        record_type: member_or_empty(members, "type"@),
        encrypted_key: member_or_empty(members, "recordKey"@),
        encrypted_data: member_or_empty(members, "data"@),
    }
}

/// The records that a list of JSON texts stands for.
pub open spec fn wire_records(items: Seq<Seq<char>>) -> Seq<WireRecordView> {
    items.map_values(|item: Seq<char>| wire_record(item))
}

/// The folder that the JSON text `text` stands for.
pub open spec fn wire_folder(text: Seq<char>) -> WireFolderView {
    let members = members_of(text);
    WireFolderView {
        uid: member_or_empty(members, "folderUid"@),
        encrypted_key: member_or_empty(members, "folderKey"@),
        encrypted_data: member_text(members, "data"@),
        records: wire_records(member_items(members, "records"@)),
    }
}

/// The folders that a list of JSON texts stands for.
pub open spec fn wire_folders(items: Seq<Seq<char>>) -> Seq<WireFolderView> {
    items.map_values(|item: Seq<char>| wire_folder(item))
}

/// A warning: the string that the item is, or the item's own text where it
/// is no string.
pub open spec fn wire_warning(item: Seq<char>) -> Seq<char> {
    match json_string(item) {
        Some(text) => text,
        None => item,
    }
}

/// The warnings that a list of JSON texts stands for.
pub open spec fn wire_warnings(items: Seq<Seq<char>>) -> Seq<Seq<char>> {
    items.map_values(|item: Seq<char>| wire_warning(item))
}

/// The response that the JSON text `text` stands for. A text that is no JSON
/// object stands for a response that holds nothing.
pub open spec fn envelope_of(text: Seq<char>) -> EnvelopeView {
    let members = members_of(text);
    EnvelopeView {
        encrypted_app_key: if members.contains_key("encryptedAppKey"@) {
            Some(member_or_empty(members, "encryptedAppKey"@))
        } else {
            None
        },
        owner_public_key: member_text(members, "appOwnerPublicKey"@),
        records: wire_records(member_items(members, "records"@)),
        folders: wire_folders(member_items(members, "folders"@)),
        warnings: wire_warnings(member_items(members, "warnings"@)),
    }
}

/// Reads the members of a JSON object.
fn read_members(text: &str) -> (r: Dict)
    ensures
        r@ == members_of(text@),
{
    match parse_members(text) {
        Some(entries) => Dict::from_entries(entries),
        None => Dict::new(),
    }
}

/// Reads the member `name` where it is a string.
fn read_text(members: &Dict, name: &str) -> (r: Option<String>)
    ensures
        optional_text(r) == member_text(members@, name@),
{
    match members.get(name) {
        Some(raw) => parse_text(raw.as_str()),
        None => None,
    }
}

/// Reads the member `name` as a string, empty where it is none.
fn read_text_or_empty(members: &Dict, name: &str) -> (r: String)
    ensures
        r@ == member_or_empty(members@, name@),
{
    match read_text(members, name) {
        Some(text) => text,
        None => String::new(),
    }
}

/// Reads the items of the member `name`.
fn read_items(members: &Dict, name: &str) -> (r: Vec<String>)
    ensures
        texts(r@) == member_items(members@, name@),
{
    let found = match members.get(name) {
        Some(raw) => parse_items(raw.as_str()),
        None => None,
    };
    match found {
        Some(items) => items,
        None => {
            let items: Vec<String> = Vec::new();
            assert(texts(items@) =~= Seq::<Seq<char>>::empty());
            items
        },
    }
}

impl WireRecord {
    /// Reads one record from its JSON text.
    pub fn parse(text: &str) -> (r: WireRecord)
        ensures
            r@ == wire_record(text@),
    {
        let members = read_members(text);
        WireRecord {
            uid: read_text_or_empty(&members, "recordUid"),
            record_type: read_text_or_empty(&members, "type"),
            encrypted_key: read_text_or_empty(&members, "recordKey"),
            encrypted_data: read_text_or_empty(&members, "data"),
        }
    }

    /// Reads a list of records, each from its JSON text.
    pub fn parse_all(items: &Vec<String>) -> (r: Vec<WireRecord>)
        ensures
            record_views(r@) == wire_records(texts(items@)),
    {
        let mut out: Vec<WireRecord> = Vec::new();
        let mut i: usize = 0;
        while i < items.len()
            invariant
                i <= items.len(),
                out.len() == i,
                forall|j: int| 0 <= j < i ==> (#[trigger] out@[j])@ == wire_record(items@[j]@),
            decreases items.len() - i,
        {
            out.push(WireRecord::parse(items[i].as_str()));
            i = i + 1;
        }
        assert(record_views(out@) =~= wire_records(texts(items@)));
        out
    }
}

impl WireFolder {
    /// Reads one folder from its JSON text.
    pub fn parse(text: &str) -> (r: WireFolder)
        ensures
            r@ == wire_folder(text@),
    {
        let members = read_members(text);
        let items = read_items(&members, "records");
        WireFolder {
            uid: read_text_or_empty(&members, "folderUid"),
            encrypted_key: read_text_or_empty(&members, "folderKey"),
            encrypted_data: read_text(&members, "data"),
            records: WireRecord::parse_all(&items),
        }
    }

    /// Reads a list of folders, each from its JSON text.
    pub fn parse_all(items: &Vec<String>) -> (r: Vec<WireFolder>)
        ensures
            folder_views(r@) == wire_folders(texts(items@)),
    {
        let mut out: Vec<WireFolder> = Vec::new();
        let mut i: usize = 0;
        while i < items.len()
            invariant
                i <= items.len(),
                out.len() == i,
                forall|j: int| 0 <= j < i ==> (#[trigger] out@[j])@ == wire_folder(items@[j]@),
            decreases items.len() - i,
        {
            out.push(WireFolder::parse(items[i].as_str()));
            i = i + 1;
        }
        assert(folder_views(out@) =~= wire_folders(texts(items@)));
        out
    }
}

/// Reads the warnings, each from its JSON text.
fn read_warnings(items: Vec<String>) -> (r: Vec<String>)
    ensures
        texts(r@) == wire_warnings(texts(items@)),
{
    let mut out: Vec<String> = Vec::new();
    let mut i: usize = 0;
    while i < items.len()
        invariant
            i <= items.len(),
            out.len() == i,
            forall|j: int| 0 <= j < i ==> (#[trigger] out@[j])@ == wire_warning(items@[j]@),
        decreases items.len() - i,
    {
        let warning = match parse_text(items[i].as_str()) {
            Some(text) => text,
            None => items[i].clone(),
        };
        out.push(warning);
        i = i + 1;
    }
    assert(texts(out@) =~= wire_warnings(texts(items@)));
    out
}

impl Envelope {
    /// Reads a decrypted response from its JSON text.
    pub fn parse(text: &str) -> (r: Envelope)
        ensures
            r@ == envelope_of(text@),
    {
        let members = read_members(text);
        let offer = match members.get("encryptedAppKey") {
            Some(_) => Some(read_text_or_empty(&members, "encryptedAppKey")),
            None => None,
        };
        let records = read_items(&members, "records");
        let folders = read_items(&members, "folders");
        let warnings = read_items(&members, "warnings");
        Envelope {
            encrypted_app_key: offer,
            owner_public_key: read_text(&members, "appOwnerPublicKey"),
            records: WireRecord::parse_all(&records),
            folders: WireFolder::parse_all(&folders),
            warnings: read_warnings(warnings),
        }
    }
}

} // verus!
