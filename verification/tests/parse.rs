use dicom_props::element::{Element, Tag, Vr};
use dicom_props::project::{parse, project};
use dicom_props::value::{ElementValue, OtherShape};
use std::collections::HashMap;

const UID_WITH_EXT: &str = "1.2.826.0.1.3680043.8.1055.1.20111102150758591.92402465.76095170";
const UID_NO_EXT: &str = "1.3.46.670589.11.3540642177.2867929537.1763690001.2563942908";

fn text(group: u16, element: u16, vr: Vr, value: &str) -> Element {
    Element { tag: Tag { group, element }, vr, value: ElementValue::Str(value.to_owned()) }
}

/// A small object of the kind a decoder yields for an image file.
fn object_with(study_instance_uid: &str) -> Vec<Element> {
    vec![
        text(0x0008, 0x0016, Vr::UI, "1.2.840.10008.5.1.4.1.1.7"),
        text(0x0008, 0x0060, Vr::CS, "OT"),
        text(0x0010, 0x0010, Vr::PN, "Doe^John"),
        text(0x0020, 0x000D, Vr::UI, study_instance_uid),
        Element {
            tag: Tag { group: 0x0028, element: 0x0010 },
            vr: Vr::US,
            value: ElementValue::U16(vec![512]),
        },
        Element {
            tag: Tag { group: 0x7FE0, element: 0x0010 },
            vr: Vr::OB,
            value: ElementValue::Other(OtherShape::Bytes),
        },
    ]
}

fn decoded(json: &str) -> HashMap<String, Option<String>> {
    serde_json::from_str(json).expect("the text is a JSON object of strings and nulls")
}

#[test]
fn test_parse_no_tag_should_not_be_null_with_ext() {
    let result = parse(&object_with(UID_WITH_EXT), false).unwrap();
    assert!(!result.is_empty());
}

#[test]
fn test_parse_with_tag_should_not_be_null_with_ext() {
    let result = parse(&object_with(UID_WITH_EXT), true).unwrap();
    assert!(!result.is_empty());
}

#[test]
fn test_parse_with_tag_should_have_correct_study_instance_uid_with_ext() {
    let result = parse(&object_with(UID_WITH_EXT), true).unwrap();
    let parsed_json: serde_json::Value = serde_json::from_str(result.as_str()).unwrap();
    if let Some(parsed_value) = parsed_json["StudyInstanceUID"].as_str() {
        let expected_value = "1.2.826.0.1.3680043.8.1055.1.20111102150758591.92402465.76095170";
        assert_eq!(parsed_value, expected_value);
    } else {
        panic!("StudyInstanceUID is not found in the parsed json");
    }
}

#[test]
fn test_parse_no_tag_should_have_correct_study_instance_uid_with_ext() {
    let result = parse(&object_with(UID_WITH_EXT), false).unwrap();
    let parsed_json: serde_json::Value = serde_json::from_str(result.as_str()).unwrap();
    if let Some(parsed_value) = parsed_json["(0020,000D)"].as_str() {
        let expected_value = "1.2.826.0.1.3680043.8.1055.1.20111102150758591.92402465.76095170";
        assert_eq!(parsed_value, expected_value);
    } else {
        panic!("(0020,000D) is not found in the parsed json");
    }
}

#[test]
fn test_parse_with_tag_should_have_correct_study_instance_uid_on_no_ext() {
    let result = parse(&object_with(UID_NO_EXT), true).unwrap();
    let parsed_json: serde_json::Value = serde_json::from_str(result.as_str()).unwrap();
    if let Some(parsed_value) = parsed_json["StudyInstanceUID"].as_str() {
        let expected_value = "1.3.46.670589.11.3540642177.2867929537.1763690001.2563942908";
        assert_eq!(parsed_value, expected_value);
    } else {
        panic!("StudyInstanceUID is not found in the parsed json");
    }
}

#[test]
fn test_parse_no_tag_should_have_correct_study_instance_uid_on_no_ext() {
    let result = parse(&object_with(UID_NO_EXT), false).unwrap();
    let parsed_json: serde_json::Value = serde_json::from_str(result.as_str()).unwrap();
    if let Some(parsed_value) = parsed_json["(0020,000D)"].as_str() {
        let expected_value = "1.3.46.670589.11.3540642177.2867929537.1763690001.2563942908";
        assert_eq!(parsed_value, expected_value);
    } else {
        panic!("(0020,000D) is not found in the parsed json");
    }
}

#[test]
fn single_uid_with_symbolic_keys() {
    let elements = vec![text(0x0020, 0x000D, Vr::UI, UID_WITH_EXT)];
    assert_eq!(
        parse(&elements, true).unwrap(),
        "{\"StudyInstanceUID\":\"1.2.826.0.1.3680043.8.1055.1.20111102150758591.92402465.76095170\"}"
    );
}

#[test]
fn single_uid_with_numeric_keys() {
    let elements = vec![text(0x0020, 0x000D, Vr::UI, UID_WITH_EXT)];
    assert_eq!(
        parse(&elements, false).unwrap(),
        "{\"(0020,000D)\":\"1.2.826.0.1.3680043.8.1055.1.20111102150758591.92402465.76095170\"}"
    );
}

#[test]
fn element_outside_allow_list_leaves_no_entry() {
    let elements = vec![Element {
        tag: Tag { group: 0x7FE0, element: 0x0010 },
        vr: Vr::OB,
        value: ElementValue::Other(OtherShape::Bytes),
    }];
    assert_eq!(parse(&elements, true).unwrap(), "{}");
    assert_eq!(parse(&elements, false).unwrap(), "{}");
    let record = project(&elements, true);
    assert!(record.is_empty());
    assert!(!record.contains_key("PixelData"));
}

#[test]
fn textual_value_under_disallowed_representation_is_dropped() {
    // The representation decides, not the value's shape.
    let elements = vec![
        text(0x0028, 0x0010, Vr::US, "512"),
        text(0x0010, 0x0020, Vr::LO, "ID-7"),
    ];
    assert_eq!(parse(&elements, true).unwrap(), "{\"PatientID\":\"ID-7\"}");
}

#[test]
fn empty_string_value_is_kept_as_empty_text() {
    let elements = vec![text(0x0010, 0x0010, Vr::PN, "")];
    assert_eq!(parse(&elements, true).unwrap(), "{\"PatientName\":\"\"}");
    let record = project(&elements, true);
    assert_eq!(record.get("PatientName"), Some(Some(String::new())));
}

#[test]
fn allowed_element_without_textual_form_is_null() {
    let elements = vec![Element {
        tag: Tag { group: 0x0008, element: 0x0020 },
        vr: Vr::DA,
        value: ElementValue::Other(OtherShape::Empty),
    }];
    assert_eq!(parse(&elements, false).unwrap(), "{\"(0008,0020)\":null}");
    let record = project(&elements, false);
    assert_eq!(record.get("(0008,0020)"), Some(None));
    assert_eq!(record.len(), 1);
}

#[test]
fn tag_without_dictionary_entry_is_unknown() {
    let elements = vec![text(0x0009, 0x0010, Vr::LO, "vendor")];
    assert_eq!(parse(&elements, true).unwrap(), "{\"Unknown\":\"vendor\"}");
    assert_eq!(parse(&elements, false).unwrap(), "{\"(0009,0010)\":\"vendor\"}");
}

#[test]
fn later_element_replaces_earlier_one_under_same_key() {
    let elements = vec![
        text(0x0009, 0x0010, Vr::LO, "first"),
        text(0x0009, 0x0011, Vr::LO, "second"),
        text(0x0010, 0x0010, Vr::PN, "Doe^John"),
        text(0x0009, 0x0012, Vr::LO, "third"),
    ];
    let record = project(&elements, true);
    assert_eq!(record.len(), 2);
    assert_eq!(record.get("Unknown"), Some(Some("third".to_owned())));
    assert_eq!(record.get("PatientName"), Some(Some("Doe^John".to_owned())));
    let numeric = project(&elements, false);
    assert_eq!(numeric.len(), 4);
    assert_eq!(numeric.get("(0009,0010)"), Some(Some("first".to_owned())));
}

#[test]
fn members_are_ordered_by_key() {
    let elements = vec![
        text(0x0010, 0x0010, Vr::PN, "Doe^John"),
        text(0x0008, 0x0060, Vr::CS, "MR"),
        text(0x0020, 0x000D, Vr::UI, "1.2.3"),
    ];
    assert_eq!(
        parse(&elements, true).unwrap(),
        "{\"Modality\":\"MR\",\"PatientName\":\"Doe^John\",\"StudyInstanceUID\":\"1.2.3\"}"
    );
    assert_eq!(
        parse(&elements, false).unwrap(),
        "{\"(0008,0060)\":\"MR\",\"(0010,0010)\":\"Doe^John\",\"(0020,000D)\":\"1.2.3\"}"
    );
}

#[test]
fn output_is_the_same_on_every_run() {
    let elements = object_with(UID_WITH_EXT);
    let first = parse(&elements, true).unwrap();
    for _ in 0..20 {
        assert_eq!(parse(&elements, true).unwrap(), first);
    }
    let mut reversed = elements.clone();
    reversed.reverse();
    assert_eq!(parse(&reversed, true).unwrap(), first);
}

#[test]
fn output_parses_back_to_the_record() {
    let mut elements = object_with(UID_WITH_EXT);
    elements.push(text(0x0020, 0x4000, Vr::LT, "a \"quoted\" line\nand a tab\t\\ \u{1} é"));
    elements.push(Element {
        tag: Tag { group: 0x0008, element: 0x0021 },
        vr: Vr::DA,
        value: ElementValue::Other(OtherShape::Empty),
    });
    for symbolic in [true, false] {
        let record = project(&elements, symbolic);
        let back = decoded(&parse(&elements, symbolic).unwrap());
        assert_eq!(back.len(), record.len());
        for (key, value) in &back {
            assert_eq!(record.get(key), Some(value.clone()));
        }
    }
}

#[test]
fn empty_object_gives_empty_json_object() {
    assert_eq!(parse(&Vec::new(), true).unwrap(), "{}");
}

#[test]
fn only_allowed_representations_contribute_keys() {
    let all = [
        Vr::AE, Vr::AS, Vr::AT, Vr::CS, Vr::DA, Vr::DS, Vr::DT, Vr::FL, Vr::FD, Vr::IS, Vr::LO,
        Vr::LT, Vr::OB, Vr::OD, Vr::OF, Vr::OL, Vr::OV, Vr::OW, Vr::PN, Vr::SH, Vr::SL, Vr::SQ,
        Vr::SS, Vr::ST, Vr::SV, Vr::TM, Vr::UC, Vr::UI, Vr::UL, Vr::UN, Vr::UR, Vr::US, Vr::UT,
        Vr::UV,
    ];
    let mut elements = Vec::new();
    for (n, vr) in all.iter().enumerate() {
        elements.push(text(0x0009, n as u16, *vr, "x"));
    }
    let record = project(&elements, false);
    let mut kept = 0;
    for (n, vr) in all.iter().enumerate() {
        let key = format!("(0009,{:04X})", n);
        assert_eq!(record.contains_key(&key), vr.is_allowed(), "{:?}", vr);
        if vr.is_allowed() {
            kept += 1;
            assert_eq!(record.get(&key), Some(Some("x".to_owned())));
        }
    }
    assert_eq!(kept, 23);
    assert_eq!(record.len(), 23);
}
