use books_table::attribute::{as_text, to_attribute, Attribute};
use books_table::codec::{decode, decode_many, encode, Book, DecodeError};
use books_table::record::StoredRecord;

fn book(id: &str, category: &str, name: Option<&str>) -> Book {
    Book {
        id: Some(id.to_string()),
        category: Some(category.to_string()),
        name: name.map(|n| n.to_string()),
    }
}

fn text(s: &str) -> Attribute {
    Attribute::S(s.to_string())
}

fn record(pairs: Vec<(&str, Attribute)>) -> StoredRecord {
    let mut made = StoredRecord::new();
    for (name, value) in pairs {
        made.insert(name.to_string(), value);
    }
    made
}

#[test]
fn to_attribute_of_some_is_a_string_attribute() {
    assert_eq!(to_attribute(Some("Dune".to_string())), Attribute::S("Dune".to_string()));
    assert_eq!(to_attribute(Some(String::new())), Attribute::S(String::new()));
}

#[test]
fn to_attribute_of_none_is_null() {
    assert_eq!(to_attribute(None), Attribute::Null);
}

#[test]
fn to_attribute_agrees_with_the_serializer() {
    let direct: serde_dynamo::AttributeValue =
        serde_dynamo::to_attribute_value("1#scifi".to_string()).unwrap();
    assert_eq!(direct, serde_dynamo::AttributeValue::S("1#scifi".to_string()));
    assert_eq!(to_attribute(Some("1#scifi".to_string())), text("1#scifi"));
    let absent: serde_dynamo::AttributeValue =
        serde_dynamo::to_attribute_value(None::<String>).unwrap();
    assert_eq!(absent, serde_dynamo::AttributeValue::Null(true));
}

#[test]
fn as_text_reads_string_attributes_only() {
    assert_eq!(as_text(&text("x")), Some(&"x".to_string()));
    assert_eq!(as_text(&Attribute::Null), None);
    assert_eq!(as_text(&Attribute::Other), None);
}

#[test]
fn attribute_clone_is_equal() {
    assert_eq!(text("x").clone(), text("x"));
    assert_eq!(Attribute::Null.clone(), Attribute::Null);
    assert_eq!(Attribute::Other.clone(), Attribute::Other);
}

#[test]
fn new_record_has_no_attribute() {
    let made = StoredRecord::new();
    assert_eq!(made.get("PK"), None);
    assert!(made.attributes().is_empty());
}

#[test]
fn record_insert_then_get() {
    let made = record(vec![("PK", text("book")), ("SK", text("1#scifi"))]);
    assert_eq!(made.get("PK"), Some(&text("book")));
    assert_eq!(made.get("SK"), Some(&text("1#scifi")));
    assert_eq!(made.get("name"), None);
    assert_eq!(made.get("pk"), None);
}

#[test]
fn record_insert_replaces_the_old_value() {
    let mut made = record(vec![("PK", text("book")), ("name", text("Dune"))]);
    made.insert("name".to_string(), Attribute::Null);
    assert_eq!(made.get("name"), Some(&Attribute::Null));
    assert_eq!(made.get("PK"), Some(&text("book")));
    assert_eq!(made.attributes().len(), 2);
}

#[test]
fn record_lists_each_name_once() {
    let mut made = StoredRecord::new();
    made.insert("a".to_string(), text("1"));
    made.insert("b".to_string(), text("2"));
    made.insert("a".to_string(), text("3"));
    let mut listed: Vec<(String, Attribute)> = made.attributes().clone();
    listed.sort_by_key(|pair| pair.0.clone());
    assert_eq!(listed, vec![("a".to_string(), text("3")), ("b".to_string(), text("2"))]);
}

#[test]
fn record_clone_has_the_same_attributes() {
    let made = record(vec![("PK", text("book")), ("SK", text("1#scifi")), ("name", Attribute::Null)]);
    let copy = made.clone();
    assert_eq!(copy.get("PK"), Some(&text("book")));
    assert_eq!(copy.get("SK"), Some(&text("1#scifi")));
    assert_eq!(copy.get("name"), Some(&Attribute::Null));
    assert_eq!(copy.attributes().len(), 3);
}

#[test]
fn is_storable_needs_id_and_category() {
    assert!(book("1", "scifi", None).is_storable());
    assert!(!Book { id: None, category: Some("scifi".to_string()), name: None }.is_storable());
    assert!(!Book { id: Some("1".to_string()), category: None, name: None }.is_storable());
    assert!(!Book { id: None, category: None, name: Some("Dune".to_string()) }.is_storable());
}

#[test]
fn encode_writes_keys_and_name() {
    let stored = encode(&book("1", "scifi", Some("Dune")));
    assert_eq!(stored.get("PK"), Some(&text("book")));
    assert_eq!(stored.get("SK"), Some(&text("1#scifi")));
    assert_eq!(stored.get("name"), Some(&text("Dune")));
    assert_eq!(stored.attributes().len(), 3);
}

#[test]
fn encode_writes_an_absent_name_as_null() {
    let stored = encode(&book("1", "scifi", None));
    assert_eq!(stored.get("name"), Some(&Attribute::Null));
    assert_eq!(stored.get("SK"), Some(&text("1#scifi")));
}

#[test]
fn encode_does_not_check_for_separators() {
    let stored = encode(&book("a#b", "c", Some("x")));
    assert_eq!(stored.get("SK"), Some(&text("a#b#c")));
}

#[test]
fn decode_inverts_encode() {
    let written = book("1", "scifi", Some("Dune"));
    assert_eq!(decode(&encode(&written)), Ok(written));
    let unnamed = book("42", "fiction", None);
    assert_eq!(decode(&encode(&unnamed)), Ok(unnamed));
    let other_script = book("é1", "naïve", Some("Ünïcode"));
    assert_eq!(decode(&encode(&other_script)), Ok(other_script));
}

#[test]
fn decode_inverts_encode_where_only_the_category_holds_a_separator() {
    let written = book("1", "sci#fi", Some("Dune"));
    assert_eq!(decode(&encode(&written)), Ok(written));
}

#[test]
fn decode_does_not_invert_encode_where_the_id_holds_a_separator() {
    let written = book("a#b", "c", Some("x"));
    assert_eq!(decode(&encode(&written)), Ok(book("a", "b#c", Some("x"))));
}

#[test]
fn decode_reads_a_record_without_name_attribute() {
    let raw = record(vec![("PK", text("book")), ("SK", text("1#scifi"))]);
    assert_eq!(decode(&raw), Ok(book("1", "scifi", None)));
}

#[test]
fn decode_ignores_other_attributes() {
    let raw = record(vec![
        ("PK", text("book")),
        ("SK", text("1#scifi")),
        ("name", text("Dune")),
        ("pages", Attribute::Other),
    ]);
    assert_eq!(decode(&raw), Ok(book("1", "scifi", Some("Dune"))));
}

#[test]
fn decode_without_partition_key() {
    let raw = record(vec![("SK", text("1#scifi")), ("name", text("Dune"))]);
    assert_eq!(decode(&raw), Err(DecodeError::MissingPartitionKey));
    assert_eq!(decode(&StoredRecord::new()), Err(DecodeError::MissingPartitionKey));
}

#[test]
fn decode_of_another_partition() {
    let raw = record(vec![("PK", text("author")), ("SK", text("1#scifi"))]);
    assert_eq!(decode(&raw), Err(DecodeError::NotABook));
    let untyped = record(vec![("PK", Attribute::Other), ("SK", text("1#scifi"))]);
    assert_eq!(decode(&untyped), Err(DecodeError::NotABook));
    let null = record(vec![("PK", Attribute::Null)]);
    assert_eq!(decode(&null), Err(DecodeError::NotABook));
}

#[test]
fn decode_without_sort_key() {
    let raw = record(vec![("PK", text("book")), ("name", text("Dune"))]);
    assert_eq!(decode(&raw), Err(DecodeError::MissingSortKey));
}

#[test]
fn decode_of_a_sort_key_that_is_no_string() {
    let raw = record(vec![("PK", text("book")), ("SK", Attribute::Other)]);
    assert_eq!(decode(&raw), Err(DecodeError::SortKeyNotText));
    let null = record(vec![("PK", text("book")), ("SK", Attribute::Null)]);
    assert_eq!(decode(&null), Err(DecodeError::SortKeyNotText));
}

#[test]
fn decode_of_a_sort_key_without_separator() {
    let raw = record(vec![("PK", text("book")), ("SK", text("scifi")), ("name", text("Dune"))]);
    assert_eq!(decode(&raw), Err(DecodeError::MalformedSortKey));
}

#[test]
fn decode_of_a_name_that_is_no_string() {
    let raw = record(vec![("PK", text("book")), ("SK", text("1#scifi")), ("name", Attribute::Other)]);
    assert_eq!(decode(&raw), Err(DecodeError::NameNotText));
}

#[test]
fn decode_reports_the_first_mismatch() {
    let raw = record(vec![("PK", text("author")), ("SK", Attribute::Other), ("name", Attribute::Other)]);
    assert_eq!(decode(&raw), Err(DecodeError::NotABook));
    let raw = record(vec![("PK", text("book")), ("SK", text("scifi")), ("name", Attribute::Other)]);
    assert_eq!(decode(&raw), Err(DecodeError::MalformedSortKey));
}

#[test]
fn decode_many_keeps_order_and_goes_on_after_an_error() {
    let raw = vec![
        encode(&book("2", "scifi", Some("Solaris"))),
        record(vec![("PK", text("book")), ("SK", text("broken"))]),
        encode(&book("1", "scifi", Some("Dune"))),
        record(vec![("PK", text("book"))]),
    ];
    assert_eq!(
        decode_many(&raw),
        vec![
            Ok(book("2", "scifi", Some("Solaris"))),
            Err(DecodeError::MalformedSortKey),
            Ok(book("1", "scifi", Some("Dune"))),
            Err(DecodeError::MissingSortKey),
        ]
    );
}

#[test]
fn decode_many_of_nothing_is_empty() {
    assert_eq!(decode_many(&Vec::new()), Vec::new());
}
