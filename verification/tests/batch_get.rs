use question_store::attr::AttrValue;
use question_store::attr::Record;
use question_store::decode::decode_question;
use question_store::qid::uuid_string;
use question_store::store::MockTable;

fn question_record(qid: u128, text: &str, when: &str) -> Record {
    let mut r = Record::new();
    r.push_field(String::from("id"), AttrValue::S(uuid_string(qid)));
    r.push_field(String::from("text"), AttrValue::S(String::from(text)));
    r.push_field(String::from("when"), AttrValue::N(String::from(when)));
    // Internal metadata the projection must discard.
    r.push_field(String::from("owner"), AttrValue::S(String::from("someone")));
    r
}

fn field_s<'a>(rec: &'a Record, name: &str) -> &'a str {
    match rec.get(name) {
        Some(AttrValue::S(s)) => s.as_str(),
        other => panic!("expected string attribute {name}, got {other:?}"),
    }
}

fn field_n<'a>(rec: &'a Record, name: &str) -> &'a str {
    match rec.get(name) {
        Some(AttrValue::N(s)) => s.as_str(),
        other => panic!("expected number attribute {name}, got {other:?}"),
    }
}

fn find_by_id<'a>(records: &'a [Record], id_text: &str) -> &'a Record {
    records
        .iter()
        .find(|r| field_s(r, "id") == id_text)
        .expect("no record with that id")
}

#[test]
fn local() {
    let mut table = MockTable::new();
    let qid1: u128 = 0x0123_4567_89ab_cdef_0123_4567_89ab_cdef;
    let qid2: u128 = 0xfedc_ba98_7654_3210_fedc_ba98_7654_3210;
    table.insert(qid1, question_record(qid1, "hello world", "1700000000"));
    table.insert(qid2, question_record(qid2, "hello moon", "1700000001"));

    let result = table.batch_get(&vec![qid1, qid2]);

    assert_eq!(result.responses.table, "questions");
    let records = &result.responses.records;
    assert_eq!(records.len(), 2);

    let q1 = find_by_id(records, &uuid_string(qid1));
    assert_eq!(field_s(q1, "id"), uuid_string(qid1));
    assert_eq!(field_s(q1, "text"), "hello world");
    assert!(matches!(q1.get("when"), Some(AttrValue::N(_))));

    let q2 = find_by_id(records, &uuid_string(qid2));
    assert_eq!(field_s(q2, "id"), uuid_string(qid2));
    assert_eq!(field_s(q2, "text"), "hello moon");
    assert!(matches!(q2.get("when"), Some(AttrValue::N(_))));
}

#[test]
fn all_present_projects_exactly_three_fields() {
    let mut table = MockTable::new();
    let a: u128 = 1;
    let b: u128 = 2;
    table.insert(a, question_record(a, "first", "10"));
    table.insert(b, question_record(b, "second", "20"));

    let result = table.batch_get(&vec![a, b]);

    assert!(result.unprocessed_keys.is_none());
    assert_eq!(result.responses.records.len(), 2);
    for rec in &result.responses.records {
        assert_eq!(rec.fields.len(), 3);
        let names: Vec<&str> = rec.fields.iter().map(|f| f.name.as_str()).collect();
        assert_eq!(names, vec!["id", "text", "when"]);
        assert!(rec.get("owner").is_none());
    }
}

#[test]
fn never_inserted_id_comes_back_unprocessed() {
    let mut table = MockTable::new();
    table.insert(7, question_record(7, "present", "5"));
    let c: u128 = 0xc0ffee;

    let result = table.batch_get(&vec![c]);

    assert!(result.responses.records.is_empty());
    let unprocessed = result.unprocessed_keys.expect("unprocessed keys owed");
    assert_eq!(unprocessed.table, "questions");
    assert_eq!(unprocessed.projection, "text,when");
    assert_eq!(unprocessed.keys.len(), 1);
    let key = &unprocessed.keys[0];
    assert_eq!(key.fields.len(), 1);
    assert_eq!(field_s(key, "id"), uuid_string(c));
}

#[test]
fn mixed_batch_partitions_per_occurrence() {
    let mut table = MockTable::new();
    let a: u128 = 11;
    let c: u128 = 22;
    table.insert(a, question_record(a, "kept", "1"));

    let request = vec![a, c, c];
    let result = table.batch_get(&request);

    let found = &result.responses.records;
    let keys = &result.unprocessed_keys.as_ref().expect("absent ids owed").keys;
    assert_eq!(found.len() + keys.len(), request.len());
    assert_eq!(found.len(), 1);
    assert_eq!(keys.len(), 2);
    assert_eq!(field_s(&found[0], "id"), uuid_string(a));
    for key in keys {
        assert_eq!(field_s(key, "id"), uuid_string(c));
    }
}

#[test]
fn empty_request_resolves_completely() {
    let table = MockTable::new();
    let result = table.batch_get(&vec![]);
    assert!(result.responses.records.is_empty());
    assert!(result.unprocessed_keys.is_none());
}

#[test]
fn duplicate_present_ids_count_per_occurrence() {
    let mut table = MockTable::new();
    let a: u128 = 99;
    table.insert(a, question_record(a, "twice", "2"));

    let result = table.batch_get(&vec![a, a]);

    assert!(result.unprocessed_keys.is_none());
    assert_eq!(result.responses.records.len(), 2);
    assert_eq!(result.responses.records[0], result.responses.records[1]);
}

#[test]
fn repeated_calls_return_equal_results() {
    let mut table = MockTable::new();
    let a: u128 = 5;
    let c: u128 = 6;
    table.insert(a, question_record(a, "stable", "3"));

    let request = vec![a, c];
    let first = table.batch_get(&request);
    let second = table.batch_get(&request);

    assert_eq!(first.responses, second.responses);
    assert_eq!(
        first.unprocessed_keys.is_some(),
        second.unprocessed_keys.is_some(),
    );
    assert_eq!(first, second);
}

#[test]
fn written_record_reads_back() {
    let mut table = MockTable::new();
    let a: u128 = 0xabcdef;
    table.insert(a, question_record(a, "what was written", "123"));

    let result = table.batch_get(&vec![a]);

    assert!(result.unprocessed_keys.is_none());
    assert_eq!(result.responses.records.len(), 1);
    let rec = &result.responses.records[0];
    assert_eq!(field_s(rec, "text"), "what was written");
    assert_eq!(field_n(rec, "when"), "123");

    let q = decode_question(rec).expect("well-typed record");
    assert_eq!(q.text, "what was written");
    assert_eq!(q.when, 123);
    assert_eq!(q.id, uuid_string(a));
}

#[test]
fn overwriting_a_record_serves_the_latest() {
    let mut table = MockTable::new();
    let a: u128 = 404;
    table.insert(a, question_record(a, "old", "1"));
    table.insert(a, question_record(a, "new", "2"));

    let result = table.batch_get(&vec![a]);

    assert_eq!(result.responses.records.len(), 1);
    assert_eq!(field_s(&result.responses.records[0], "text"), "new");
}
