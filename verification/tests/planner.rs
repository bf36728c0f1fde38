use books_table::attribute::Attribute;
use books_table::codec::{encode, Book};
use books_table::planner::{
    add_item, plan_get_by_id, plan_list_all, plan_list_by_category, plan_put, table_name,
};
use books_table::query::QuerySpec;
use books_table::record::StoredRecord;

fn stored_book(id: &str, category: &str, name: &str) -> StoredRecord {
    encode(&Book {
        id: Some(id.to_string()),
        category: Some(category.to_string()),
        name: Some(name.to_string()),
    })
}

fn with_keys(pk: Attribute, sk: Attribute) -> StoredRecord {
    let mut made = StoredRecord::new();
    made.insert("PK".to_string(), pk);
    made.insert("SK".to_string(), sk);
    made
}

fn text(s: &str) -> Attribute {
    Attribute::S(s.to_string())
}

fn pair(a: &str, b: &str) -> (String, String) {
    (a.to_string(), b.to_string())
}

fn sort_keys(records: &Vec<StoredRecord>) -> Vec<Attribute> {
    records.iter().map(|r| r.get("SK").unwrap().clone()).collect()
}

#[test]
fn table_is_the_books_table() {
    assert_eq!(table_name(), "booksTable");
}

#[test]
fn get_by_id_asks_for_the_prefix_of_the_id() {
    assert_eq!(
        plan_get_by_id("42"),
        QuerySpec {
            table: "booksTable".to_string(),
            partition: "book".to_string(),
            sort_key_prefix: Some("42#".to_string()),
            sort_key_fragment: None,
        }
    );
}

#[test]
fn list_all_asks_for_the_partition_only() {
    assert_eq!(
        plan_list_all(),
        QuerySpec {
            table: "booksTable".to_string(),
            partition: "book".to_string(),
            sort_key_prefix: None,
            sort_key_fragment: None,
        }
    );
}

#[test]
fn list_by_category_asks_for_the_fragment_of_the_category() {
    assert_eq!(
        plan_list_by_category("scifi"),
        QuerySpec {
            table: "booksTable".to_string(),
            partition: "book".to_string(),
            sort_key_prefix: None,
            sort_key_fragment: Some("#scifi".to_string()),
        }
    );
}

#[test]
fn expressions_of_get_by_id() {
    let query = plan_get_by_id("1");
    assert_eq!(query.key_condition_expression(), "#pk = :pk AND begins_with(#sk, :sk_prefix)");
    assert_eq!(query.filter_expression(), None);
    assert_eq!(query.expression_attribute_names(), vec![pair("#pk", "PK"), pair("#sk", "SK")]);
    assert_eq!(
        query.expression_attribute_values(),
        vec![(":pk".to_string(), text("book")), (":sk_prefix".to_string(), text("1#"))]
    );
}

#[test]
fn expressions_of_list_all() {
    let query = plan_list_all();
    assert_eq!(query.key_condition_expression(), "#pk = :pk");
    assert_eq!(query.filter_expression(), None);
    assert_eq!(query.expression_attribute_names(), vec![pair("#pk", "PK")]);
    assert_eq!(query.expression_attribute_values(), vec![(":pk".to_string(), text("book"))]);
}

#[test]
fn expressions_of_list_by_category() {
    let query = plan_list_by_category("scifi");
    assert_eq!(query.key_condition_expression(), "#pk = :pk");
    assert_eq!(query.filter_expression(), Some("contains(#sk, :category)".to_string()));
    assert_eq!(query.expression_attribute_names(), vec![pair("#pk", "PK"), pair("#sk", "SK")]);
    assert_eq!(
        query.expression_attribute_values(),
        vec![(":pk".to_string(), text("book")), (":category".to_string(), text("#scifi"))]
    );
}

#[test]
fn expressions_of_a_read_with_prefix_and_fragment() {
    let query = QuerySpec {
        table: "t".to_string(),
        partition: "p".to_string(),
        sort_key_prefix: Some("a".to_string()),
        sort_key_fragment: Some("b".to_string()),
    };
    assert_eq!(query.key_condition_expression(), "#pk = :pk AND begins_with(#sk, :sk_prefix)");
    assert_eq!(query.filter_expression(), Some("contains(#sk, :category)".to_string()));
    assert_eq!(
        query.expression_attribute_values(),
        vec![
            (":pk".to_string(), text("p")),
            (":sk_prefix".to_string(), text("a")),
            (":category".to_string(), text("b")),
        ]
    );
}

#[test]
fn get_by_id_matches_every_category_of_the_id() {
    let query = plan_get_by_id("42");
    assert!(query.matches(&stored_book("42", "fiction", "A")));
    assert!(query.matches(&stored_book("42", "scifi", "B")));
    assert!(query.matches(&stored_book("42", "", "C")));
}

#[test]
fn get_by_id_does_not_match_a_longer_id() {
    let query = plan_get_by_id("42");
    assert!(!query.matches(&stored_book("420", "fiction", "A")));
    assert!(!query.matches(&stored_book("142", "fiction", "C")));
    assert!(!query.matches(&stored_book("4", "fiction", "D")));
}

#[test]
fn get_by_id_needs_the_book_partition_and_a_string_sort_key() {
    let query = plan_get_by_id("42");
    assert!(!query.matches(&with_keys(text("author"), text("42#fiction"))));
    assert!(!query.matches(&with_keys(Attribute::Other, text("42#fiction"))));
    assert!(!query.matches(&with_keys(text("book"), Attribute::Other)));
    assert!(!query.matches(&with_keys(text("book"), Attribute::Null)));
    assert!(!query.matches(&StoredRecord::new()));
    let mut no_sort_key = StoredRecord::new();
    no_sort_key.insert("PK".to_string(), text("book"));
    assert!(!query.matches(&no_sort_key));
}

#[test]
fn list_all_matches_the_whole_partition() {
    let query = plan_list_all();
    assert!(query.matches(&stored_book("1", "scifi", "Dune")));
    assert!(query.matches(&with_keys(text("book"), Attribute::Other)));
    let mut no_sort_key = StoredRecord::new();
    no_sort_key.insert("PK".to_string(), text("book"));
    assert!(query.matches(&no_sort_key));
    assert!(!query.matches(&with_keys(text("author"), text("1#scifi"))));
}

#[test]
fn list_by_category_matches_the_books_of_the_category() {
    let query = plan_list_by_category("scifi");
    assert!(query.matches(&stored_book("1", "scifi", "Dune")));
    assert!(query.matches(&stored_book("2", "scifi", "Solaris")));
    assert!(!query.matches(&stored_book("3", "fiction", "Emma")));
    assert!(!query.matches(&stored_book("scifi", "fiction", "Odd")));
    assert!(!query.matches(&with_keys(text("author"), text("1#scifi"))));
}

#[test]
fn list_by_category_also_matches_a_category_that_starts_the_same() {
    let query = plan_list_by_category("fic");
    assert!(query.matches(&stored_book("1", "fic", "Short")));
    assert!(query.matches(&stored_book("2", "fiction", "Long")));
    assert!(!query.matches(&stored_book("3", "scific", "Inside")));
    assert!(!query.matches(&stored_book("fic", "poetry", "In the id")));
    let longer = plan_list_by_category("fiction");
    assert!(!longer.matches(&stored_book("1", "fic", "Short")));
    assert!(longer.matches(&stored_book("2", "fiction", "Long")));
}

#[test]
fn list_by_category_sees_a_separator_inside_a_category() {
    let query = plan_list_by_category("b");
    assert!(query.matches(&stored_book("1", "a#b", "Nested")));
}

#[test]
fn select_keeps_the_matches_in_order() {
    let stored = vec![
        stored_book("2", "scifi", "Solaris"),
        stored_book("1", "fiction", "Emma"),
        with_keys(text("author"), text("1#scifi")),
        stored_book("1", "scifi", "Dune"),
        stored_book("10", "scifi", "Ubik"),
    ];
    assert_eq!(
        sort_keys(&plan_get_by_id("1").select(&stored)),
        vec![text("1#fiction"), text("1#scifi")]
    );
    assert_eq!(
        sort_keys(&plan_list_by_category("scifi").select(&stored)),
        vec![text("2#scifi"), text("1#scifi"), text("10#scifi")]
    );
    assert_eq!(
        sort_keys(&plan_list_all().select(&stored)),
        vec![text("2#scifi"), text("1#fiction"), text("1#scifi"), text("10#scifi")]
    );
    assert!(plan_get_by_id("99").select(&stored).is_empty());
}

#[test]
fn select_with_prefix_and_fragment_needs_both() {
    let query = QuerySpec {
        table: "booksTable".to_string(),
        partition: "book".to_string(),
        sort_key_prefix: Some("1#".to_string()),
        sort_key_fragment: Some("#sci".to_string()),
    };
    let stored = vec![
        stored_book("1", "scifi", "Dune"),
        stored_book("1", "fiction", "Emma"),
        stored_book("2", "scifi", "Solaris"),
    ];
    assert_eq!(sort_keys(&query.select(&stored)), vec![text("1#scifi")]);
}

#[test]
fn query_clone_is_equal() {
    let query = plan_list_by_category("scifi");
    assert_eq!(query.clone(), query);
}

#[test]
fn list_all_of_an_empty_partition_is_empty() {
    assert!(plan_list_all().select(&Vec::new()).is_empty());
    let others = vec![with_keys(text("author"), text("1#scifi"))];
    assert!(plan_list_all().select(&others).is_empty());
}

#[test]
fn plan_put_writes_the_record_to_the_books_table() {
    let entity = Book {
        id: Some("1".to_string()),
        category: Some("scifi".to_string()),
        name: Some("Dune".to_string()),
    };
    let write = plan_put(&entity);
    assert_eq!(write.table, "booksTable");
    assert_eq!(write.record.get("PK"), Some(&text("book")));
    assert_eq!(write.record.get("SK"), Some(&text("1#scifi")));
    assert_eq!(write.record.get("name"), Some(&text("Dune")));
    assert_eq!(write.record.attributes().len(), 3);
}

#[test]
fn add_item_writes_to_the_table_it_is_given() {
    let entity = Book { id: Some("7".to_string()), category: Some("poetry".to_string()), name: None };
    let write = add_item(&entity, "shelf");
    assert_eq!(write.table, "shelf");
    assert_eq!(write.record.get("SK"), Some(&text("7#poetry")));
    assert_eq!(write.record.get("name"), Some(&Attribute::Null));
}

#[test]
fn a_written_book_matches_the_lookup_of_its_id() {
    let entity = Book {
        id: Some("1".to_string()),
        category: Some("scifi".to_string()),
        name: Some("Dune".to_string()),
    };
    let write = plan_put(&entity);
    assert!(plan_get_by_id("1").matches(&write.record));
    assert!(plan_list_by_category("scifi").matches(&write.record));
    assert!(plan_list_all().matches(&write.record));
}
