use dicom_props::boundary::{check_path, reaction, Failure, Reaction};
use dicom_props::json::{confirmed, decode, encode, encoded_or_failure, record_of};
use dicom_props::record::ProjectedRecord;

#[test]
fn new_record_is_empty() {
    let record = ProjectedRecord::new();
    assert!(record.is_empty());
    assert_eq!(record.len(), 0);
    assert_eq!(record.get("anything"), None);
    assert!(!record.contains_key(""));
    assert_eq!(encode(&record).unwrap(), "{}");
}

#[test]
fn insert_adds_and_replaces() {
    let mut record = ProjectedRecord::new();
    record.insert("a".to_owned(), Some("1".to_owned()));
    record.insert("b".to_owned(), None);
    assert_eq!(record.len(), 2);
    assert_eq!(record.get("a"), Some(Some("1".to_owned())));
    assert_eq!(record.get("b"), Some(None));
    assert_eq!(record.get("c"), None);
    record.insert("a".to_owned(), Some("2".to_owned()));
    assert_eq!(record.len(), 2);
    assert_eq!(record.get("a"), Some(Some("2".to_owned())));
    assert_eq!(record.get("b"), Some(None));
    record.insert("b".to_owned(), Some(String::new()));
    assert_eq!(record.get("b"), Some(Some(String::new())));
    assert!(record.contains_key("a"));
    assert!(!record.contains_key("A"));
    assert!(!record.is_empty());
}

#[test]
fn many_keys_keep_their_values() {
    let mut record = ProjectedRecord::new();
    for round in 0..3 {
        for n in 0..500 {
            record.insert(format!("key{}", n), Some(format!("{}-{}", round, n)));
        }
    }
    assert_eq!(record.len(), 500);
    for n in 0..500 {
        assert_eq!(record.get(&format!("key{}", n)), Some(Some(format!("2-{}", n))));
    }
}

#[test]
fn encoded_record_has_strings_and_nulls_ordered_by_key() {
    let mut record = ProjectedRecord::new();
    record.insert("b".to_owned(), None);
    record.insert("c".to_owned(), Some("x\"y".to_owned()));
    record.insert("a".to_owned(), Some("1".to_owned()));
    record.insert("b".to_owned(), Some("2".to_owned()));
    record.insert("".to_owned(), None);
    assert_eq!(encode(&record).unwrap(), "{\"\":null,\"a\":\"1\",\"b\":\"2\",\"c\":\"x\\\"y\"}");
}

#[test]
fn encoder_outcome_is_passed_on() {
    assert_eq!(encoded_or_failure(Ok("{}".to_owned())), Ok("{}".to_owned()));
    let refused = serde_json::from_str::<serde_json::Value>("{").unwrap_err();
    assert_eq!(encoded_or_failure(Err(refused)), Err(Failure::Serialization));
}

#[test]
fn missing_path_is_a_failure_that_stops_the_call() {
    assert_eq!(check_path(false, false), Err(Failure::PathMissing));
    assert_eq!(check_path(false, true), Err(Failure::PathMissing));
    assert_eq!(reaction(Failure::PathMissing), Reaction::Abort);
}

#[test]
fn directory_is_not_a_file() {
    assert_eq!(check_path(true, false), Err(Failure::PathNotAFile));
    assert_eq!(reaction(Failure::PathNotAFile), Reaction::Abort);
}

#[test]
fn regular_file_passes_the_check() {
    assert_eq!(check_path(true, true), Ok(()));
}

#[test]
fn only_a_malformed_path_text_gives_a_null_result() {
    assert_eq!(reaction(Failure::PathEncoding), Reaction::NullResult);
    for failure in [
        Failure::PathMissing,
        Failure::PathNotAFile,
        Failure::PathUnresolved,
        Failure::Decode,
        Failure::Serialization,
    ] {
        assert_eq!(reaction(failure), Reaction::Abort);
    }
}

fn record_with(members: &[(&str, Option<&str>)]) -> ProjectedRecord {
    let mut record = ProjectedRecord::new();
    for (key, value) in members {
        record.insert((*key).to_owned(), value.map(|text| text.to_owned()));
    }
    record
}

#[test]
fn records_are_the_same_whatever_the_order_of_writes() {
    let first = record_with(&[("a", Some("1")), ("b", None), ("c", Some(""))]);
    let second = record_with(&[("c", Some("x")), ("b", None), ("a", Some("1")), ("c", Some(""))]);
    assert!(first.same_as(&second));
    assert!(second.same_as(&first));
    assert!(first.same_as(&first));
    assert!(ProjectedRecord::new().same_as(&ProjectedRecord::new()));
}

#[test]
fn records_differ_by_key_or_by_value() {
    let base = record_with(&[("a", Some("1")), ("b", None)]);
    assert!(!base.same_as(&record_with(&[("a", Some("1"))])));
    assert!(!base.same_as(&record_with(&[("a", Some("1")), ("c", None)])));
    assert!(!base.same_as(&record_with(&[("a", Some("2")), ("b", None)])));
    assert!(!base.same_as(&record_with(&[("a", Some("1")), ("b", Some(""))])));
    assert!(!base.same_as(&record_with(&[("a", None), ("b", None)])));
    assert!(!base.same_as(&ProjectedRecord::new()));
    assert!(!ProjectedRecord::new().same_as(&base));
}

#[test]
fn decode_reads_objects_of_strings_and_nulls() {
    let read = decode("{\"a\":\"1\",\"b\":null, \"c\" : \"\\u00e9\\n\"}").unwrap();
    assert_eq!(read.len(), 3);
    assert_eq!(read.get("a"), Some(Some("1".to_owned())));
    assert_eq!(read.get("b"), Some(None));
    assert_eq!(read.get("c"), Some(Some("\u{e9}\n".to_owned())));
    assert!(decode("{}").unwrap().is_empty());
    let repeated = decode("{\"a\":\"1\",\"a\":\"2\"}").unwrap();
    assert_eq!(repeated.len(), 1);
    assert_eq!(repeated.get("a"), Some(Some("2".to_owned())));
}

#[test]
fn decode_refuses_everything_else() {
    for text in [
        "",
        "{",
        "{\"a\":\"1\"",
        "{\"a\":\"1\"}x",
        "null",
        "\"a\"",
        "[\"a\"]",
        "{\"a\":1}",
        "{\"a\":true}",
        "{\"a\":[\"b\"]}",
        "{\"a\":{\"b\":\"c\"}}",
        "{a:\"1\"}",
    ] {
        assert!(decode(text).is_none(), "{}", text);
    }
}

#[test]
fn encoded_record_reads_back_as_itself() {
    let samples = [
        record_with(&[]),
        record_with(&[("", None)]),
        record_with(&[("StudyInstanceUID", Some("1.2.3")), ("(0008,0020)", None)]),
        record_with(&[("k\"\\\n\t\u{0}\u{7f}", Some("v\u{1f}\u{e9}\u{1F600} ,{}[]:"))]),
    ];
    for record in &samples {
        let text = encode(record).unwrap();
        assert!(decode(&text).unwrap().same_as(record));
    }
}

#[test]
fn members_become_a_record_with_the_last_of_each_key() {
    let members = vec![
        ("a".to_owned(), Some("1".to_owned())),
        ("b".to_owned(), None),
        ("a".to_owned(), None),
    ];
    let record = record_of(&members);
    assert!(record.same_as(&record_with(&[("a", None), ("b", None)])));
    assert!(record_of(&Vec::new()).is_empty());
}

#[test]
fn text_is_handed_out_only_when_it_reads_back_as_the_record() {
    let record = record_with(&[("a", Some("1"))]);
    let text = String::from("{\"a\":\"1\"}");
    assert_eq!(
        confirmed(&record, text.clone(), Some(record_with(&[("a", Some("1"))]))),
        Ok(text.clone())
    );
    assert_eq!(
        confirmed(&record, text.clone(), Some(record_with(&[("a", Some("2"))]))),
        Err(Failure::Serialization)
    );
    assert_eq!(
        confirmed(&record, text.clone(), Some(ProjectedRecord::new())),
        Err(Failure::Serialization)
    );
    assert_eq!(confirmed(&record, text, None), Err(Failure::Serialization));
}
