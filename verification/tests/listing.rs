use books_table::attribute::Attribute;
use books_table::listing::pick_winner;
use books_table::record::StoredRecord;

fn keyed(sk: Attribute) -> StoredRecord {
    let mut made = StoredRecord::new();
    made.insert("PK".to_string(), Attribute::S("book".to_string()));
    made.insert("SK".to_string(), sk);
    made
}

fn with_sort_key(sk: &str) -> StoredRecord {
    keyed(Attribute::S(sk.to_string()))
}

#[test]
fn pick_winner_of_nothing_is_none() {
    assert_eq!(pick_winner(&Vec::new()), None);
}

#[test]
fn pick_winner_of_one_record_is_that_record() {
    assert_eq!(pick_winner(&vec![with_sort_key("1#scifi")]), Some(0));
    assert_eq!(pick_winner(&vec![keyed(Attribute::Other)]), Some(0));
    assert_eq!(pick_winner(&vec![StoredRecord::new()]), Some(0));
}

#[test]
fn pick_winner_takes_the_smallest_sort_key() {
    let items = vec![
        with_sort_key("1#scifi"),
        with_sort_key("1#poetry"),
        with_sort_key("1#fiction"),
        with_sort_key("1#history"),
    ];
    assert_eq!(pick_winner(&items), Some(2));
}

#[test]
fn pick_winner_of_a_sorted_listing_is_the_first() {
    let items = vec![with_sort_key("1#a"), with_sort_key("1#ab"), with_sort_key("1#b")];
    assert_eq!(pick_winner(&items), Some(0));
}

#[test]
fn pick_winner_takes_the_first_of_equal_sort_keys() {
    let items = vec![with_sort_key("1#b"), with_sort_key("1#a"), with_sort_key("1#a")];
    assert_eq!(pick_winner(&items), Some(1));
}

#[test]
fn pick_winner_puts_records_without_sort_key_last() {
    let items = vec![keyed(Attribute::Null), StoredRecord::new(), with_sort_key("9#z")];
    assert_eq!(pick_winner(&items), Some(2));
    let none_keyed = vec![keyed(Attribute::Other), StoredRecord::new()];
    assert_eq!(pick_winner(&none_keyed), Some(0));
}
