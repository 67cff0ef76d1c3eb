use epoch_buckets::dataset::{
    de_stringified_pubkey, parse_dataset, pubkeys_from_json, DatasetError, ElementError,
};
use epoch_buckets::pubkey::{ParseError, Pubkey2};
use serde_json::Value;

const FIRST: &str = "2gPihUTjt3FJqf1VpidgrY5cZ6PuyMccGVwQHRfjMPZG";
const SECOND: &str = "11111111111111111111111111111111";
const FIRST_BYTES: [u8; 32] = [
    24, 243, 6, 223, 230, 153, 210, 8, 92, 137, 123, 67, 164, 197, 79, 196, 125, 43, 183, 85, 103,
    91, 232, 167, 73, 131, 104, 131, 0, 101, 214, 231,
];

fn text(value: &str) -> Value {
    Value::String(value.to_string())
}

#[test]
fn parse_dataset_reads_identifiers_in_order() {
    let json = format!("[\"{}\", \"{}\", \"{}\"]", FIRST, SECOND, FIRST);
    let keys = parse_dataset(json.as_bytes()).unwrap();
    assert_eq!(
        keys,
        vec![
            Pubkey2::new_from_array(FIRST_BYTES),
            Pubkey2::new_from_array([0u8; 32]),
            Pubkey2::new_from_array(FIRST_BYTES),
        ]
    );
}

#[test]
fn parse_dataset_reads_empty_array() {
    assert_eq!(parse_dataset(b"[]").unwrap(), Vec::<Pubkey2>::new());
    assert_eq!(parse_dataset(b" [ ] \n").unwrap(), Vec::<Pubkey2>::new());
}

#[test]
fn parse_dataset_rejects_malformed_json() {
    for bad in [
        &b""[..],
        b"[",
        b"[\"11111111111111111111111111111111\"",
        b"[\"11111111111111111111111111111111\",]",
        b"{}",
        b"\"11111111111111111111111111111111\"",
        b"[] []",
        b"\xff\xfe",
    ] {
        assert!(matches!(parse_dataset(bad), Err(DatasetError::Json(_))));
    }
}

#[test]
fn parse_dataset_rejects_string_of_wrong_decoded_length() {
    let json = format!("[\"{}\", \"{}\", \"{}\"]", FIRST, "abc", SECOND);
    match parse_dataset(json.as_bytes()) {
        Err(DatasetError::Element { index, error }) => {
            assert_eq!(index, 1);
            assert_eq!(error, ElementError::Parse(ParseError::WrongSize));
        }
        other => panic!("unexpected result: {:?}", other),
    }
}

#[test]
fn parse_dataset_rejects_string_outside_the_alphabet() {
    let json = format!("[\"0{}\"]", &FIRST[1..]);
    match parse_dataset(json.as_bytes()) {
        Err(DatasetError::Element { index, error }) => {
            assert_eq!(index, 0);
            assert_eq!(error, ElementError::Parse(ParseError::Invalid));
        }
        other => panic!("unexpected result: {:?}", other),
    }
}

#[test]
fn parse_dataset_rejects_element_that_is_no_string() {
    for element in ["1", "null", "true", "[]", "{}", "1.5"] {
        let json = format!("[\"{}\", \"{}\", {}, \"abc\"]", FIRST, SECOND, element);
        match parse_dataset(json.as_bytes()) {
            Err(DatasetError::Element { index, error }) => {
                assert_eq!(index, 2);
                assert_eq!(error, ElementError::WrongType);
            }
            other => panic!("unexpected result: {:?}", other),
        }
    }
}

#[test]
fn parse_dataset_reports_the_first_bad_element() {
    let json = format!("[\"{}\", \"abc\", 7]", FIRST);
    match parse_dataset(json.as_bytes()) {
        Err(DatasetError::Element { index, error }) => {
            assert_eq!(index, 1);
            assert_eq!(error, ElementError::Parse(ParseError::WrongSize));
        }
        other => panic!("unexpected result: {:?}", other),
    }
}

#[test]
fn parse_dataset_decodes_json_escapes() {
    let json = format!("[\"\\u0031{}\"]", "1".repeat(31));
    let keys = parse_dataset(json.as_bytes()).unwrap();
    assert_eq!(keys, vec![Pubkey2::new_from_array([0u8; 32])]);
}

#[test]
fn de_stringified_pubkey_reads_a_string() {
    assert_eq!(
        de_stringified_pubkey(&text(FIRST)),
        Ok(Pubkey2::new_from_array(FIRST_BYTES))
    );
}

#[test]
fn de_stringified_pubkey_rejects_other_values() {
    assert_eq!(de_stringified_pubkey(&Value::Null), Err(ElementError::WrongType));
    assert_eq!(de_stringified_pubkey(&Value::Bool(true)), Err(ElementError::WrongType));
    assert_eq!(de_stringified_pubkey(&Value::from(7u64)), Err(ElementError::WrongType));
    assert_eq!(
        de_stringified_pubkey(&Value::Array(vec![text(FIRST)])),
        Err(ElementError::WrongType)
    );
}

#[test]
fn de_stringified_pubkey_rejects_bad_text() {
    assert_eq!(
        de_stringified_pubkey(&text("abc")),
        Err(ElementError::Parse(ParseError::WrongSize))
    );
    assert_eq!(
        de_stringified_pubkey(&text("0000")),
        Err(ElementError::Parse(ParseError::Invalid))
    );
}

#[test]
fn pubkeys_from_json_reads_all_or_reports_the_first_failure() {
    let good = vec![text(SECOND), text(FIRST)];
    assert_eq!(
        pubkeys_from_json(&good),
        Ok(vec![
            Pubkey2::new_from_array([0u8; 32]),
            Pubkey2::new_from_array(FIRST_BYTES)
        ])
    );
    let bad = vec![text(SECOND), Value::Null, text("abc")];
    assert_eq!(pubkeys_from_json(&bad), Err((1, ElementError::WrongType)));
    assert_eq!(pubkeys_from_json(&[]), Ok(vec![]));
}
