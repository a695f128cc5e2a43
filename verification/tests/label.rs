use wlipman::label::{
    format_line, label_source, stringify_record, NON_TEXT, TEXT_PLAIN, TEXT_UTF8,
};
use wlipman::record::ClipboardRecord;
use wlipman::text::{push_decimal, same_bytes, same_text};

fn labelled(pairs: &[(&str, &[u8])]) -> ClipboardRecord {
    let mut record = ClipboardRecord::new();
    for (mime, payload) in pairs {
        record.insert(mime.to_string(), payload.to_vec());
    }
    record
}

#[test]
fn label_names_are_fixed() {
    assert_eq!(TEXT_UTF8, "text/plain;charset=utf-8");
    assert_eq!(TEXT_PLAIN, "text/plain");
    assert_eq!(NON_TEXT, "<non text data>");
}

#[test]
fn record_without_representations_gets_the_placeholder() {
    assert_eq!(stringify_record(0, &ClipboardRecord::new()), "0: <non text data>");
}

#[test]
fn record_without_text_gets_the_placeholder() {
    let record = labelled(&[("image/png", &[0x89, 0x50]), ("text/html", b"<p>hi</p>")]);
    assert_eq!(stringify_record(4, &record), "4: <non text data>");
    assert_eq!(label_source(&record), None);
}

#[test]
fn plain_text_is_the_label() {
    let record = labelled(&[("text/plain", b"hello")]);
    assert_eq!(stringify_record(0, &record), "0: hello");
    assert_eq!(label_source(&record), Some(&b"hello".to_vec()));
}

#[test]
fn utf8_text_is_preferred_to_plain_text() {
    let record = labelled(&[
        ("text/plain", b"plain"),
        ("text/plain;charset=utf-8", "gr\u{fc}n".as_bytes()),
    ]);
    assert_eq!(stringify_record(2, &record), "2: gr\u{fc}n");
    let other_order = labelled(&[
        ("text/plain;charset=utf-8", b"first"),
        ("text/plain", b"second"),
    ]);
    assert_eq!(stringify_record(2, &other_order), "2: first");
}

#[test]
fn other_spellings_of_the_mime_type_do_not_count() {
    let record = labelled(&[("TEXT/PLAIN", b"upper"), ("text/plain;charset=UTF-8", b"caps")]);
    assert_eq!(stringify_record(1, &record), "1: <non text data>");
}

#[test]
fn malformed_text_is_decoded_with_replacement_characters() {
    let record = labelled(&[("text/plain", &[0x66, 0xff, 0x6f])]);
    assert_eq!(stringify_record(3, &record), "3: f\u{fffd}o");
    let cut_short = labelled(&[("text/plain;charset=utf-8", &[0x61, 0xe2, 0x82])]);
    assert_eq!(stringify_record(0, &cut_short), "0: a\u{fffd}");
}

#[test]
fn empty_text_gives_an_empty_label() {
    let record = labelled(&[("text/plain", b"")]);
    assert_eq!(stringify_record(9, &record), "9: ");
}

#[test]
fn text_with_line_feeds_is_kept_as_it_is() {
    let record = labelled(&[("text/plain", b"two\nlines: here")]);
    assert_eq!(stringify_record(0, &record), "0: two\nlines: here");
}

#[test]
fn index_is_written_in_decimal() {
    let record = labelled(&[("text/plain", b"x")]);
    assert_eq!(stringify_record(10, &record), "10: x");
    assert_eq!(stringify_record(12345, &record), "12345: x");
    assert_eq!(stringify_record(usize::MAX, &record), format!("{}: x", usize::MAX));
}

#[test]
fn format_line_joins_index_and_label() {
    assert_eq!(format_line(0, ""), "0: ");
    assert_eq!(format_line(7, "seven"), "7: seven");
    assert_eq!(format_line(100, "a: b"), "100: a: b");
    assert_eq!(format_line(1009, "\u{1f4cb}"), "1009: \u{1f4cb}");
}

#[test]
fn push_decimal_appends_the_numeral() {
    let mut out = String::from("n=");
    push_decimal(&mut out, 0);
    assert_eq!(out, "n=0");
    push_decimal(&mut out, 9);
    push_decimal(&mut out, 10);
    push_decimal(&mut out, 90817);
    assert_eq!(out, "n=091090817");
    let mut largest = String::new();
    push_decimal(&mut largest, usize::MAX);
    assert_eq!(largest, usize::MAX.to_string());
}

#[test]
fn texts_and_bytes_are_compared_by_content() {
    assert!(same_text("", ""));
    assert!(same_text("text/plain", "text/plain"));
    assert!(!same_text("text/plain", "text/plaim"));
    assert!(!same_text("text/plain", "text/plain "));
    assert!(!same_text("a", "A"));
    assert!(same_text("\u{e9}", "\u{e9}"));
    assert!(!same_text("\u{e9}", "e\u{301}"));
    assert!(same_bytes(&[], &[]));
    assert!(same_bytes(&[1, 2, 3], &[1, 2, 3]));
    assert!(!same_bytes(&[1, 2, 3], &[1, 2]));
    assert!(!same_bytes(&[1, 2, 3], &[1, 2, 4]));
}
