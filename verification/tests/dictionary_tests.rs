use spellcast::dictionary::Dictionary;
use spellcast::letters::get_letter_value;

#[test]
fn test_empty_dictionary() {
    let dict = Dictionary::empty();
    assert!(dict.is_empty());
    assert!(!dict.contains("TEST"));
}

#[test]
fn test_letter_values() {
    // Point values
    assert_eq!(get_letter_value('E'), 1); // 1 point
    assert_eq!(get_letter_value('N'), 2); // 2 points
    assert_eq!(get_letter_value('D'), 3); // 3 points
    assert_eq!(get_letter_value('B'), 4); // 4 points
    assert_eq!(get_letter_value('C'), 5); // 5 points
    assert_eq!(get_letter_value('K'), 6); // 6 points
    assert_eq!(get_letter_value('X'), 7); // 7 points
    assert_eq!(get_letter_value('Q'), 8); // 8 points
}

#[test]
fn test_letter_values_ignore_case() {
    assert_eq!(get_letter_value('e'), 1);
    assert_eq!(get_letter_value('q'), 8);
    assert_eq!(get_letter_value('#'), 1);
}

#[test]
fn test_dictionary_normalizes_lines() {
    let lines = vec![
        String::from("  hello  "),
        String::from("WORLD"),
        String::from("a"),
        String::from(""),
        String::from("hello"),
    ];
    let dict = Dictionary::from_lines(&lines);
    // "a" is too short, "" is dropped, the duplicate "hello" collapses
    assert_eq!(dict.len(), 2);
    assert!(!dict.is_empty());
    assert!(dict.contains("hello"));
    assert!(dict.contains("HELLO"));
    assert!(dict.contains("World"));
    assert!(!dict.contains("a"));
    assert!(!dict.contains("hell"));
}
