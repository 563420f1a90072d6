use base64::engine::general_purpose::URL_SAFE_NO_PAD;
use base64::Engine;
use keeper_secrets::crypto::{CryptoError, CryptoUtils};
use keeper_secrets::records::{open_folder, open_payload, open_record, open_records, unseal, Batch, ItemError};
use keeper_secrets::wire::{WireFolder, WireRecord};

const APP_KEY: [u8; 32] = [0x11; 32];
const FOLDER_KEY: [u8; 32] = [0x22; 32];

fn record_key(n: u8) -> Vec<u8> {
    vec![0x40 + n; 32]
}

fn seal(plaintext: &[u8], key: &[u8]) -> String {
    URL_SAFE_NO_PAD.encode(CryptoUtils::encrypt_aes(plaintext, key).unwrap())
}

fn record(n: u8, parent_key: &[u8]) -> WireRecord {
    WireRecord {
        uid: format!("uid-{}", n),
        record_type: "login".to_string(),
        encrypted_key: seal(&record_key(n), parent_key),
        encrypted_data: seal(format!("data of {}", n).as_bytes(), &record_key(n)),
    }
}

fn folder(uid: &str, records: Vec<WireRecord>) -> WireFolder {
    WireFolder {
        uid: uid.to_string(),
        encrypted_key: seal(&FOLDER_KEY, &APP_KEY),
        encrypted_data: Some(seal(b"{\"name\":\"shared\"}", &FOLDER_KEY)),
        records,
    }
}

#[test]
fn unseal_decodes_then_decrypts() {
    let text = seal(b"inner", &APP_KEY);
    assert_eq!(unseal(&APP_KEY, &text), Ok(b"inner".to_vec()));
}

#[test]
fn unseal_names_what_failed() {
    let text = seal(b"inner", &APP_KEY);
    assert_eq!(unseal(&APP_KEY, "not base64 !"), Err(ItemError::Encoding));
    assert_eq!(unseal(&APP_KEY, "A"), Err(ItemError::Encoding));
    assert_eq!(unseal(&[1, 2, 3], &text), Err(ItemError::Crypto(CryptoError::InvalidKeyLength)));
    assert_eq!(unseal(&APP_KEY, "QUJD"), Err(ItemError::Crypto(CryptoError::MalformedCiphertext)));
    assert_eq!(unseal(&FOLDER_KEY, &text), Err(ItemError::Crypto(CryptoError::DecryptionFailed)));
}

#[test]
fn record_is_opened_under_the_key_of_its_parent() {
    let opened = open_record(&APP_KEY, &None, &record(1, &APP_KEY)).unwrap();
    assert_eq!(opened.uid, "uid-1");
    assert_eq!(opened.record_type, "login");
    assert_eq!(opened.folder_uid, None);
    assert_eq!(opened.data, b"data of 1".to_vec());
}

#[test]
fn record_with_a_bad_key_wrap_is_reported_by_uid() {
    let mut bad = record(2, &APP_KEY);
    bad.encrypted_key = seal(&record_key(2), &FOLDER_KEY);
    let error = open_record(&APP_KEY, &None, &bad).unwrap_err();
    assert_eq!(error.uid, "uid-2");
    assert_eq!(error.cause, ItemError::Crypto(CryptoError::DecryptionFailed));
}

#[test]
fn record_with_bad_data_is_reported_by_uid() {
    let mut bad = record(3, &APP_KEY);
    bad.encrypted_data = "****".to_string();
    let error = open_record(&APP_KEY, &None, &bad).unwrap_err();
    assert_eq!(error.uid, "uid-3");
    assert_eq!(error.cause, ItemError::Encoding);

    let mut short_key = record(3, &APP_KEY);
    short_key.encrypted_key = seal(&[1, 2, 3], &APP_KEY);
    let error = open_record(&APP_KEY, &None, &short_key).unwrap_err();
    assert_eq!(error.cause, ItemError::Crypto(CryptoError::InvalidKeyLength));
}

#[test]
fn one_corrupted_record_does_not_stop_its_siblings() {
    for k in 0..5u8 {
        let mut records: Vec<WireRecord> = (0..5u8).map(|n| record(n, &APP_KEY)).collect();
        let mut wrap = URL_SAFE_NO_PAD.decode(&records[k as usize].encrypted_key).unwrap();
        wrap[20] ^= 1;
        records[k as usize].encrypted_key = URL_SAFE_NO_PAD.encode(wrap);

        let batch = open_payload(&APP_KEY, &records, &vec![]);
        assert_eq!(batch.records.len(), 4);
        assert_eq!(batch.bad_records.len(), 1);
        assert_eq!(batch.bad_folders.len(), 0);
        assert_eq!(batch.bad_records[0].uid, format!("uid-{}", k));
        let uids: Vec<String> = batch.records.iter().map(|r| r.uid.clone()).collect();
        let expected: Vec<String> =
            (0..5u8).filter(|n| *n != k).map(|n| format!("uid-{}", n)).collect();
        assert_eq!(uids, expected);
        for opened in &batch.records {
            assert_eq!(opened.data, format!("data of {}", &opened.uid[4..]).into_bytes());
        }
    }
}

#[test]
fn records_are_added_behind_what_the_batch_holds() {
    let mut batch = Batch::new();
    open_records(&APP_KEY, &None, &vec![record(1, &APP_KEY)], &mut batch);
    open_records(&APP_KEY, &Some("f".to_string()), &vec![record(2, &FOLDER_KEY), record(3, &APP_KEY)], &mut batch);
    assert_eq!(batch.records.len(), 2);
    assert_eq!(batch.records[0].uid, "uid-1");
    assert_eq!(batch.records[1].uid, "uid-3");
    assert_eq!(batch.records[1].folder_uid, Some("f".to_string()));
    assert_eq!(batch.bad_records.len(), 1);
    assert_eq!(batch.bad_records[0].uid, "uid-2");
}

#[test]
fn empty_response_gives_an_empty_batch() {
    let batch = open_payload(&APP_KEY, &vec![], &vec![]);
    assert_eq!(batch.records.len(), 0);
    assert_eq!(batch.bad_records.len(), 0);
    assert_eq!(batch.bad_folders.len(), 0);
}

#[test]
fn folder_key_is_unwrapped_and_its_metadata_checked() {
    assert_eq!(open_folder(&APP_KEY, &folder("f1", vec![])).unwrap(), FOLDER_KEY.to_vec());

    let mut no_metadata = folder("f2", vec![]);
    no_metadata.encrypted_data = None;
    assert_eq!(open_folder(&APP_KEY, &no_metadata).unwrap(), FOLDER_KEY.to_vec());

    let mut bad_metadata = folder("f3", vec![]);
    bad_metadata.encrypted_data = Some(seal(b"x", &APP_KEY));
    let error = open_folder(&APP_KEY, &bad_metadata).unwrap_err();
    assert_eq!(error.uid, "f3");
    assert_eq!(error.cause, ItemError::Crypto(CryptoError::DecryptionFailed));

    let error = open_folder(&FOLDER_KEY, &folder("f4", vec![])).unwrap_err();
    assert_eq!(error.uid, "f4");
}

#[test]
fn records_of_a_folder_open_under_the_folder_key() {
    let folders = vec![folder("f1", vec![record(5, &FOLDER_KEY), record(6, &APP_KEY)])];
    let batch = open_payload(&APP_KEY, &vec![record(1, &APP_KEY)], &folders);
    assert_eq!(batch.records.len(), 2);
    assert_eq!(batch.records[0].uid, "uid-1");
    assert_eq!(batch.records[0].folder_uid, None);
    assert_eq!(batch.records[1].uid, "uid-5");
    assert_eq!(batch.records[1].folder_uid, Some("f1".to_string()));
    assert_eq!(batch.records[1].data, b"data of 5".to_vec());
    assert_eq!(batch.bad_records.len(), 1);
    assert_eq!(batch.bad_records[0].uid, "uid-6");
    assert_eq!(batch.bad_folders.len(), 0);
}

#[test]
fn one_corrupted_folder_does_not_stop_the_batch() {
    let mut broken = folder("broken", vec![record(7, &FOLDER_KEY)]);
    broken.encrypted_key = "@@@@".to_string();
    let folders = vec![
        folder("first", vec![record(2, &FOLDER_KEY)]),
        broken,
        folder("last", vec![record(3, &FOLDER_KEY)]),
    ];
    let batch = open_payload(&APP_KEY, &vec![record(1, &APP_KEY)], &folders);
    let uids: Vec<&str> = batch.records.iter().map(|r| r.uid.as_str()).collect();
    assert_eq!(uids, vec!["uid-1", "uid-2", "uid-3"]);
    assert_eq!(batch.bad_records.len(), 0);
    assert_eq!(batch.bad_folders.len(), 1);
    assert_eq!(batch.bad_folders[0].uid, "broken");
    assert_eq!(batch.bad_folders[0].cause, ItemError::Encoding);
}

#[test]
fn failed_items_are_listed_in_the_order_in_which_they_are_met() {
    let folders = vec![
        folder("f1", vec![record(4, &APP_KEY)]),
        folder("f2", vec![record(5, &APP_KEY)]),
    ];
    let records = vec![record(1, &FOLDER_KEY), record(2, &APP_KEY), record(3, &FOLDER_KEY)];
    let batch = open_payload(&APP_KEY, &records, &folders);
    let bad: Vec<&str> = batch.bad_records.iter().map(|r| r.uid.as_str()).collect();
    assert_eq!(bad, vec!["uid-1", "uid-3", "uid-4", "uid-5"]);
    assert_eq!(batch.records.len(), 1);
}
