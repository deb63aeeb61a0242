use owmods_core::table::Table;
use owmods_core::text::{chars_of, contains, fold, fold_text, same_chars, same_text};

#[test]
fn table_keeps_the_order_in_which_keys_came() {
    let mut table = Table::new();
    assert!(table.is_empty());
    assert_eq!(table.insert("b".to_string(), 1), None);
    assert_eq!(table.insert("a".to_string(), 2), None);
    assert_eq!(table.insert("c".to_string(), 3), None);
    assert_eq!(table.len(), 3);
    let keys: Vec<&str> = table.entries.iter().map(|e| e.0.as_str()).collect();
    assert_eq!(keys, vec!["b", "a", "c"]);
    assert_eq!(table.find("a"), Some(1));
    assert_eq!(table.find("d"), None);
}

#[test]
fn table_replaces_the_value_of_a_key_in_place() {
    let mut table = Table::new();
    table.insert("b".to_string(), 1);
    table.insert("a".to_string(), 2);
    assert_eq!(table.insert("b".to_string(), 5), Some(1));
    assert_eq!(table.len(), 2);
    assert_eq!(table.get("b"), Some(&5));
    assert_eq!(table.get("a"), Some(&2));
    assert_eq!(table.find("b"), Some(0));
    assert!(table.contains_key("a"));
    assert!(!table.contains_key("A"));
    assert_eq!(table.get(""), None);
}

#[test]
fn table_hands_out_a_value_to_change() {
    let mut table = Table::new();
    table.insert("a".to_string(), 1);
    table.insert("b".to_string(), 2);
    *table.get_mut("b").unwrap() += 10;
    assert!(table.get_mut("c").is_none());
    assert_eq!(table.get("a"), Some(&1));
    assert_eq!(table.get("b"), Some(&12));
}

#[test]
fn text_is_read_character_by_character() {
    assert_eq!(chars_of("aé漢"), vec!['a', 'é', '漢']);
    assert_eq!(chars_of(""), Vec::<char>::new());
    assert_eq!(fold('A'), 'a');
    assert_eq!(fold('Z'), 'z');
    assert_eq!(fold('a'), 'a');
    assert_eq!(fold('['), '[');
    assert_eq!(fold('@'), '@');
    assert_eq!(fold('É'), 'É');
    assert_eq!(fold_text("TimeSaver 2"), chars_of("timesaver 2"));
}

#[test]
fn text_is_compared_and_searched() {
    assert!(same_text("abc", "abc"));
    assert!(!same_text("abc", "abd"));
    assert!(!same_text("abc", "ab"));
    assert!(same_chars(&chars_of("ab"), &chars_of("ab")));
    assert!(!same_chars(&chars_of("ab"), &chars_of("ba")));
    assert!(contains(&chars_of("TimeSaver"), &chars_of("Saver")));
    assert!(contains(&chars_of("TimeSaver"), &chars_of("Time")));
    assert!(contains(&chars_of("TimeSaver"), &chars_of("TimeSaver")));
    assert!(contains(&chars_of("TimeSaver"), &chars_of("")));
    assert!(contains(&chars_of(""), &chars_of("")));
    assert!(!contains(&chars_of("TimeSaver"), &chars_of("saver")));
    assert!(!contains(&chars_of("Saver"), &chars_of("TimeSaver")));
    assert!(!contains(&chars_of("aab"), &chars_of("abb")));
    assert!(contains(&chars_of("aaab"), &chars_of("aab")));
}
