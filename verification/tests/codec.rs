use question_store::attr::AttrValue;
use question_store::attr::Record;
use question_store::batch::StoreError;
use question_store::decode::decode_question;
use question_store::decode::parse_dec_u64;
use question_store::qid::is_uuid_text_exec;
use question_store::qid::uuid_string;
use question_store::remote::build_remote_request;

use uuid::Uuid;

#[test]
fn uuid_text_matches_the_conventional_rendering() {
    for v in [
        0u128,
        1,
        0x0123_4567_89ab_cdef_0123_4567_89ab_cdef,
        u128::MAX,
        0x550e_8400_e29b_41d4_a716_4466_5544_0000,
    ] {
        assert_eq!(uuid_string(v), Uuid::from_u128(v).to_string());
    }
}

#[test]
fn uuid_text_exact_value() {
    assert_eq!(uuid_string(0), "00000000-0000-0000-0000-000000000000");
    assert_eq!(
        uuid_string(0x0123_4567_89ab_cdef_0123_4567_89ab_cdef),
        "01234567-89ab-cdef-0123-456789abcdef",
    );
}

#[test]
fn uuid_shape_check_accepts_only_canonical_text() {
    assert!(is_uuid_text_exec("01234567-89ab-cdef-0123-456789abcdef"));
    assert!(is_uuid_text_exec("00000000-0000-0000-0000-000000000000"));
    assert!(!is_uuid_text_exec(""));
    assert!(!is_uuid_text_exec("01234567-89ab-cdef-0123-456789abcde"));
    assert!(!is_uuid_text_exec("01234567-89AB-cdef-0123-456789abcdef"));
    assert!(!is_uuid_text_exec("0123456789ab-cdef-0123-456789abcdefx"));
    assert!(!is_uuid_text_exec("01234567-89ab-cdef-0123-456789abcdeg"));
}

#[test]
fn decimal_parse_exact_values() {
    assert_eq!(parse_dec_u64("0"), Some(0));
    assert_eq!(parse_dec_u64("42"), Some(42));
    assert_eq!(parse_dec_u64("007"), Some(7));
    assert_eq!(parse_dec_u64("18446744073709551615"), Some(u64::MAX));
    assert_eq!(parse_dec_u64("18446744073709551616"), None);
    assert_eq!(parse_dec_u64(""), None);
    assert_eq!(parse_dec_u64("1a2"), None);
    assert_eq!(parse_dec_u64("-1"), None);
}

fn record_of(fields: Vec<(&str, AttrValue)>) -> Record {
    let mut r = Record::new();
    for (name, value) in fields {
        r.push_field(String::from(name), value);
    }
    r
}

fn sample_id_text() -> String {
    uuid_string(0x1234)
}

#[test]
fn decode_reads_a_well_typed_record() {
    let rec = record_of(vec![
        ("id", AttrValue::S(sample_id_text())),
        ("text", AttrValue::S(String::from("a question"))),
        ("when", AttrValue::N(String::from("1699999999"))),
    ]);
    let q = decode_question(&rec).expect("well-typed");
    assert_eq!(q.id, sample_id_text());
    assert_eq!(q.text, "a question");
    assert_eq!(q.when, 1_699_999_999);
}

#[test]
fn decode_fails_closed_on_missing_text() {
    let rec = record_of(vec![
        ("id", AttrValue::S(sample_id_text())),
        ("when", AttrValue::N(String::from("1"))),
    ]);
    assert_eq!(decode_question(&rec), Err(StoreError::DataIntegrity));
}

#[test]
fn decode_fails_closed_on_wrongly_typed_when() {
    let rec = record_of(vec![
        ("id", AttrValue::S(sample_id_text())),
        ("text", AttrValue::S(String::from("t"))),
        ("when", AttrValue::S(String::from("1"))),
    ]);
    assert_eq!(decode_question(&rec), Err(StoreError::DataIntegrity));

    let rec = record_of(vec![
        ("id", AttrValue::S(sample_id_text())),
        ("text", AttrValue::S(String::from("t"))),
        ("when", AttrValue::N(String::from("soon"))),
    ]);
    assert_eq!(decode_question(&rec), Err(StoreError::DataIntegrity));
}

#[test]
fn decode_fails_closed_on_malformed_id() {
    let rec = record_of(vec![
        ("id", AttrValue::S(String::from("not-an-id"))),
        ("text", AttrValue::S(String::from("t"))),
        ("when", AttrValue::N(String::from("1"))),
    ]);
    assert_eq!(decode_question(&rec), Err(StoreError::DataIntegrity));

    let rec = record_of(vec![
        ("id", AttrValue::N(String::from("1234"))),
        ("text", AttrValue::S(String::from("t"))),
        ("when", AttrValue::N(String::from("1"))),
    ]);
    assert_eq!(decode_question(&rec), Err(StoreError::DataIntegrity));
}

#[test]
fn store_errors_are_distinct() {
    assert_ne!(StoreError::Unavailable, StoreError::DataIntegrity);
}

#[test]
fn remote_request_carries_keys_projection_and_aliases() {
    let a: u128 = 0xaaaa;
    let b: u128 = 0xbbbb;
    let request = build_remote_request(&vec![a, b]);

    assert_eq!(request.table, "questions");
    assert_eq!(request.projection, "id,#text,#when");
    assert_eq!(request.keys.len(), 2);
    for (key, qid) in request.keys.iter().zip([a, b]) {
        assert_eq!(key.fields.len(), 1);
        assert_eq!(key.fields[0].name, "id");
        assert_eq!(key.fields[0].value, AttrValue::S(uuid_string(qid)));
    }
    let names: Vec<(&str, &str)> = request
        .attribute_names
        .iter()
        .map(|(alias, real)| (alias.as_str(), real.as_str()))
        .collect();
    assert_eq!(names, vec![("#text", "text"), ("#when", "when")]);
}

#[test]
fn projection_discards_internal_fields() {
    let rec = record_of(vec![
        ("owner", AttrValue::S(String::from("someone"))),
        ("id", AttrValue::S(sample_id_text())),
        ("text", AttrValue::S(String::from("t"))),
        ("created_by", AttrValue::S(String::from("writer"))),
        ("when", AttrValue::N(String::from("1"))),
    ]);
    let projected = rec.project();
    let names: Vec<&str> = projected.fields.iter().map(|f| f.name.as_str()).collect();
    assert_eq!(names, vec!["id", "text", "when"]);
}
