use std::collections::HashMap;

use wlipman::history::ClipboardHistory;
use wlipman::record::{ClipboardRecord, Representation};
use wlipman::storage::{
    clean, dump_history, dumped, ensure_initialized, history_fits, history_of_lists, load_history,
    loaded, record_fits, store, StoreError, MAX_LENGTH, STORAGE_FILE_NAME,
};

fn stored_record(pairs: &[(&str, &[u8])]) -> ClipboardRecord {
    let mut record = ClipboardRecord::new();
    for (mime, payload) in pairs {
        record.insert(mime.to_string(), payload.to_vec());
    }
    record
}

fn round_trip(history: &ClipboardHistory) -> ClipboardHistory {
    let bytes = dump_history(history).unwrap();
    load_history(&bytes).unwrap()
}

#[test]
fn storage_file_has_its_fixed_name() {
    assert_eq!(STORAGE_FILE_NAME, "wlipman.msgpck");
    assert_eq!(MAX_LENGTH, 4294967295);
}

#[test]
fn round_trip_of_the_empty_history() {
    let history = ClipboardHistory::new();
    let back = round_trip(&history);
    assert!(back.is_empty());
    assert!(back.same_as(&history));
}

#[test]
fn round_trip_of_records_with_zero_one_and_many_representations() {
    let mut history = ClipboardHistory::new();
    history.append(ClipboardRecord::new());
    history.append(stored_record(&[("text/plain", b"hello")]));
    history.append(stored_record(&[
        ("text/plain", b"world"),
        ("text/plain;charset=utf-8", b"world"),
        ("text/html", b"<b>world</b>"),
        ("image/png", &[0x89, 0x50, 0x4e, 0x47, 0x0d, 0x0a, 0x1a, 0x0a]),
        ("application/x-empty", b""),
    ]));
    let back = round_trip(&history);
    assert_eq!(back.len(), 3);
    assert!(back.same_as(&history));
    assert!(back.get(0).unwrap().is_empty());
    assert_eq!(back.get(1).unwrap().get("text/plain"), Some(&b"hello".to_vec()));
    assert_eq!(back.get(2).unwrap().len(), 5);
    assert_eq!(back.get(2).unwrap().get("application/x-empty"), Some(&Vec::new()));
}

#[test]
fn round_trip_keeps_bytes_that_are_not_utf8() {
    let every_byte: Vec<u8> = (0..=255u8).collect();
    let mut history = ClipboardHistory::new();
    history.append(stored_record(&[
        ("application/octet-stream", &every_byte),
        ("text/plain", &[0xff, 0xfe, 0x00, 0xc3, 0x28, 0x80]),
    ]));
    let back = round_trip(&history);
    assert!(back.same_as(&history));
    assert_eq!(back.get(0).unwrap().get("application/octet-stream"), Some(&every_byte));
    assert_eq!(
        back.get(0).unwrap().get("text/plain"),
        Some(&vec![0xff, 0xfe, 0x00, 0xc3, 0x28, 0x80])
    );
}

#[test]
fn round_trip_keeps_mime_types_outside_ascii() {
    let mut history = ClipboardHistory::new();
    history.append(stored_record(&[("t\u{e9}xt/\u{1f4cb}", b"x"), ("", b"nameless")]));
    let back = round_trip(&history);
    assert!(back.same_as(&history));
    assert_eq!(back.get(0).unwrap().get(""), Some(&b"nameless".to_vec()));
}

#[test]
fn round_trip_keeps_the_order_of_the_records() {
    let mut history = ClipboardHistory::new();
    for i in 0..40u8 {
        history.append(stored_record(&[("text/plain", &[i])]));
    }
    let back = round_trip(&history);
    assert_eq!(back.len(), 40);
    for i in 0..40u8 {
        assert_eq!(back.get(i as usize).unwrap().get("text/plain"), Some(&vec![i]));
    }
}

#[test]
fn image_of_the_empty_history_is_an_empty_array() {
    assert_eq!(clean().unwrap(), vec![0x90]);
    assert_eq!(dump_history(&ClipboardHistory::new()).unwrap(), vec![0x90]);
}

#[test]
fn image_is_an_array_of_maps_from_string_to_array_of_numbers() {
    let mut history = ClipboardHistory::new();
    history.append(stored_record(&[("a", &[1, 200])]));
    history.append(ClipboardRecord::new());
    let bytes = dump_history(&history).unwrap();
    assert_eq!(bytes, vec![0x92, 0x81, 0xa1, 0x61, 0x92, 0x01, 0xcc, 0xc8, 0x80]);
}

#[test]
fn image_is_read_by_the_messagepack_decoder_as_maps() {
    let mut history = ClipboardHistory::new();
    history.append(stored_record(&[("text/plain", b"hello")]));
    history.append(stored_record(&[("text/plain", b"world"), ("image/png", &[7; 17])]));
    let bytes = dump_history(&history).unwrap();
    let maps: Vec<HashMap<String, Vec<u8>>> = rmp_serde::from_slice(&bytes).unwrap();
    assert_eq!(maps.len(), 2);
    assert_eq!(maps[0].len(), 1);
    assert_eq!(maps[0]["text/plain"], b"hello".to_vec());
    assert_eq!(maps[1].len(), 2);
    assert_eq!(maps[1]["text/plain"], b"world".to_vec());
    assert_eq!(maps[1]["image/png"], vec![7; 17]);
}

#[test]
fn load_reads_what_the_messagepack_encoder_wrote() {
    let mut first = HashMap::new();
    first.insert("text/plain".to_string(), b"hello".to_vec());
    let mut second = HashMap::new();
    second.insert("text/plain".to_string(), b"world".to_vec());
    second.insert("image/png".to_string(), vec![0xff; 17]);
    let bytes = rmp_serde::to_vec(&vec![first, second]).unwrap();
    let history = load_history(&bytes).unwrap();
    assert_eq!(history.len(), 2);
    assert!(history.get(0).unwrap().same_as(&stored_record(&[("text/plain", b"hello")])));
    assert!(history
        .get(1)
        .unwrap()
        .same_as(&stored_record(&[("text/plain", b"world"), ("image/png", &[0xff; 17])])));
}

#[test]
fn load_of_a_map_with_a_repeated_key_keeps_the_later_value() {
    let bytes = vec![0x91, 0x82, 0xa1, 0x61, 0x91, 0x01, 0xa1, 0x61, 0x91, 0x02];
    let history = load_history(&bytes).unwrap();
    assert_eq!(history.len(), 1);
    assert_eq!(history.get(0).unwrap().len(), 1);
    assert_eq!(history.get(0).unwrap().get("a"), Some(&vec![2]));
}

#[test]
fn load_rejects_what_is_no_image() {
    assert_eq!(load_history(&[]).err(), Some(StoreError::Corrupt));
    assert_eq!(load_history(&[0xc1]).err(), Some(StoreError::Corrupt));
    assert_eq!(load_history(b"not a history").err(), Some(StoreError::Corrupt));
    assert_eq!(load_history(&[0x91]).err(), Some(StoreError::Corrupt));
    assert_eq!(load_history(&[0x91, 0x81, 0xa1, 0x61]).err(), Some(StoreError::Corrupt));
    assert_eq!(load_history(&[0x91, 0x81, 0x01, 0x90]).err(), Some(StoreError::Corrupt));
    assert_eq!(load_history(&[0x91, 0x81, 0xa1, 0x61, 0xa1, 0x62]).err(), Some(StoreError::Corrupt));
    assert_eq!(load_history(&[0x91, 0x81, 0xa1, 0xff, 0x90]).err(), Some(StoreError::Corrupt));
    assert_eq!(
        load_history(&[0x91, 0x81, 0xa1, 0x61, 0x91, 0xcd, 0x01, 0x00]).err(),
        Some(StoreError::Corrupt)
    );
}

#[test]
fn load_rejects_a_human_readable_file() {
    let json = br#"[{"text/plain":[104,101,108,108,111]}]"#;
    assert_eq!(load_history(json).err(), Some(StoreError::Corrupt));
}

#[test]
fn clean_then_load_yields_an_empty_history() {
    let bytes = clean().unwrap();
    let history = load_history(&bytes).unwrap();
    assert!(history.is_empty());
    assert_eq!(history.len(), 0);
}

#[test]
fn clean_discards_what_was_stored_before() {
    let mut history = ClipboardHistory::new();
    history.append(stored_record(&[("text/plain", b"old")]));
    let before = dump_history(&history).unwrap();
    assert_eq!(load_history(&before).unwrap().len(), 1);
    let after = clean().unwrap();
    assert_ne!(after, before);
    assert!(load_history(&after).unwrap().is_empty());
}

#[test]
fn store_adds_the_record_as_the_newest_entry() {
    let mut history = ClipboardHistory::new();
    history.append(stored_record(&[("text/plain", b"hello")]));
    let record = stored_record(&[("text/plain", b"world"), ("image/png", &[1; 17])]);
    let bytes = store(history.clone(), record.clone()).unwrap();
    let back = load_history(&bytes).unwrap();
    assert_eq!(back.len(), 2);
    assert!(back.get(0).unwrap().same_as(history.get(0).unwrap()));
    assert!(back.get(1).unwrap().same_as(&record));
    assert!(back.newest(0).unwrap().same_as(&record));
}

#[test]
fn stored_length_counts_the_stores_since_the_last_clean() {
    let mut bytes = clean().unwrap();
    for i in 0..5u8 {
        let history = load_history(&bytes).unwrap();
        assert_eq!(history.len(), i as usize);
        bytes = store(history, stored_record(&[("text/plain", &[i])])).unwrap();
    }
    assert_eq!(load_history(&bytes).unwrap().len(), 5);
    bytes = clean().unwrap();
    let history = load_history(&bytes).unwrap();
    assert_eq!(history.len(), 0);
    bytes = store(history, ClipboardRecord::new()).unwrap();
    assert_eq!(load_history(&bytes).unwrap().len(), 1);
}

#[test]
fn store_of_an_empty_record_is_no_error() {
    let bytes = store(ClipboardHistory::new(), ClipboardRecord::new()).unwrap();
    assert_eq!(bytes, vec![0x91, 0x80]);
    let back = load_history(&bytes).unwrap();
    assert_eq!(back.len(), 1);
    assert!(back.get(0).unwrap().is_empty());
}

#[test]
fn ensure_initialized_leaves_a_present_file_alone() {
    assert_eq!(ensure_initialized(true), Ok(None));
}

#[test]
fn ensure_initialized_makes_an_empty_history_for_a_missing_file() {
    let contents = ensure_initialized(false).unwrap().unwrap();
    assert_eq!(contents, clean().unwrap());
    assert!(load_history(&contents).unwrap().is_empty());
}

#[test]
fn ordinary_histories_fit() {
    let mut history = ClipboardHistory::new();
    assert!(history_fits(&history));
    history.append(ClipboardRecord::new());
    history.append(stored_record(&[("text/plain", &[0; 70000]), ("x", b"")]));
    assert!(history_fits(&history));
    assert!(record_fits(history.get(0).unwrap()));
    assert!(record_fits(history.get(1).unwrap()));
}

#[test]
fn dumped_passes_the_bytes_on_and_turns_an_encoder_error_into_unavailable() {
    assert_eq!(dumped(Ok(vec![0x90])), Ok(vec![0x90]));
    assert_eq!(dumped(Ok(Vec::new())), Ok(Vec::new()));
    assert_eq!(
        dumped(Err(rmp_serde::encode::Error::UnknownLength)),
        Err(StoreError::Unavailable)
    );
    assert_eq!(
        dumped(Err(rmp_serde::encode::Error::DepthLimitExceeded)),
        Err(StoreError::Unavailable)
    );
}

#[test]
fn loaded_builds_the_history_and_turns_a_decoder_error_into_corrupt() {
    let lists = vec![
        vec![Representation { mime: "a".to_string(), payload: vec![1] }],
        Vec::new(),
        vec![
            Representation { mime: "b".to_string(), payload: vec![2] },
            Representation { mime: "b".to_string(), payload: vec![3] },
        ],
    ];
    let history = loaded(Ok(lists)).unwrap();
    assert_eq!(history.len(), 3);
    assert_eq!(history.get(0).unwrap().get("a"), Some(&vec![1]));
    assert!(history.get(1).unwrap().is_empty());
    assert_eq!(history.get(2).unwrap().len(), 1);
    assert_eq!(history.get(2).unwrap().get("b"), Some(&vec![3]));
    assert_eq!(loaded(Err(rmp_serde::decode::Error::OutOfRange)).err(), Some(StoreError::Corrupt));
    assert_eq!(
        loaded(Err(rmp_serde::decode::Error::DepthLimitExceeded)).err(),
        Some(StoreError::Corrupt)
    );
}

#[test]
fn history_of_lists_keeps_the_order_of_the_lists() {
    let lists: Vec<Vec<Representation>> = (0..6u8)
        .map(|i| vec![Representation { mime: "n".to_string(), payload: vec![i] }])
        .collect();
    let history = history_of_lists(lists);
    assert_eq!(history.len(), 6);
    for i in 0..6u8 {
        assert_eq!(history.get(i as usize).unwrap().get("n"), Some(&vec![i]));
    }
    assert!(history_of_lists(Vec::new()).is_empty());
}

#[test]
fn store_errors_describe_themselves() {
    assert_eq!(StoreError::Corrupt.message(), "history storage is corrupt");
    assert_eq!(StoreError::Unavailable.message(), "history storage is unavailable");
    assert_eq!(StoreError::TooLarge.message(), "history is too large to store");
}
