use std::collections::hash_map::DefaultHasher;
use std::hash::{Hash, Hasher};

use meowth::bulk::{
    bulk_action_line, bulk_body, get_hash, index_name, push_document, records_per_bulk,
};
use meowth::text::{join_with, push_padded2, push_signed_decimal, u64_to_decimal};

#[test]
fn decimal_rendering_of_unsigned_numbers() {
    assert_eq!(u64_to_decimal(0), "0");
    assert_eq!(u64_to_decimal(7), "7");
    assert_eq!(u64_to_decimal(305), "305");
    assert_eq!(u64_to_decimal(u64::MAX), "18446744073709551615");
}

#[test]
fn decimal_rendering_of_signed_numbers() {
    let mut s = String::from("x=");
    push_signed_decimal(&mut s, -42);
    assert_eq!(s, "x=-42");
    let mut s = String::new();
    push_signed_decimal(&mut s, i64::MIN);
    assert_eq!(s, i64::MIN.to_string());
    let mut s = String::new();
    push_signed_decimal(&mut s, 2018);
    assert_eq!(s, "2018");
}

#[test]
fn two_digit_padding_matches_std_formatting() {
    for n in [-12i64, -5, 0, 5, 9, 10, 12, 123] {
        let mut s = String::new();
        push_padded2(&mut s, n);
        assert_eq!(s, format!("{:02}", n));
    }
}

#[test]
fn join_puts_separator_between_neighbours() {
    let parts = vec!["a".to_string(), "bc".to_string(), "".to_string(), "d".to_string()];
    assert_eq!(join_with(&parts, "\n"), "a\nbc\n\nd");
    assert_eq!(join_with(&Vec::new(), ","), "");
    assert_eq!(join_with(&vec!["only".to_string()], ","), "only");
}

#[test]
fn hash_id_is_decimal_default_hasher_digest() {
    let item = "{\"message\":\"hello\"}";
    let mut h = DefaultHasher::new();
    item.hash(&mut h);
    assert_eq!(get_hash(item), h.finish().to_string());
    assert_ne!(get_hash("a"), get_hash("b"));
    assert_eq!(get_hash("same"), get_hash("same"));
}

#[test]
fn action_line_names_id_and_type() {
    assert_eq!(
        bulk_action_line("42", "test"),
        "{\"index\":{\"_id\":\"42\", \"_type\": \"test\"}}"
    );
}

#[test]
fn index_name_is_prefix_and_date() {
    assert_eq!(index_name("logs", 118, 0, 5), "logs-2018.01.5");
    assert_eq!(index_name("logs", 118, 11, 25), "logs-2018.12.25");
    assert_eq!(index_name("app", 99, 9, 1), "app-1999.10.1");
}

#[test]
fn bulk_body_joins_lines_with_newlines() {
    let lines = vec!["{\"index\":{}}".to_string(), "{\"a\":1}".to_string()];
    assert_eq!(bulk_body(&lines), "{\"index\":{}}\n{\"a\":1}");
}

#[test]
fn pushed_documents_follow_their_action_lines() {
    let mut pack: Vec<String> = Vec::new();
    push_document(&mut pack, "{\"a\":1}".to_string(), "test");
    push_document(&mut pack, "{\"b\":2}".to_string(), "test");
    assert_eq!(pack.len(), 4);
    for k in 0..2 {
        let expected = bulk_action_line(&get_hash(&pack[2 * k + 1]), "test");
        assert_eq!(pack[2 * k], expected);
    }
    assert_eq!(pack[1], "{\"a\":1}");
    assert_eq!(pack[3], "{\"b\":2}");
}

#[test]
fn records_per_bulk_is_the_size() {
    assert_eq!(records_per_bulk(10), 10);
    assert_eq!(records_per_bulk(3), 3);
    assert_eq!(records_per_bulk(1), 1);
    assert_eq!(records_per_bulk(0), 0);
    assert_eq!(records_per_bulk(-3), 0);
}
