use rotepad::thousands::{decimal_digits, thousandify};
use rotepad::words::{count_matches_of_words, wordcount_label};

#[test]
fn thousandify_small_numbers_have_no_comma() {
    assert_eq!(thousandify(0), "0");
    assert_eq!(thousandify(7), "7");
    assert_eq!(thousandify(42), "42");
    assert_eq!(thousandify(999), "999");
}

#[test]
fn thousandify_groups_by_three() {
    assert_eq!(thousandify(1000), "1,000");
    assert_eq!(thousandify(12345), "12,345");
    assert_eq!(thousandify(100000), "100,000");
    assert_eq!(thousandify(1234567), "1,234,567");
    assert_eq!(thousandify(10000000), "10,000,000");
}

#[test]
fn thousandify_largest_count() {
    assert_eq!(thousandify(u32::MAX), "4,294,967,295");
}

#[test]
fn thousandify_without_commas_is_to_string() {
    for n in [0u32, 5, 10, 999, 1000, 1001, 65535, 999999, 1000000, 123456789, u32::MAX] {
        let s = thousandify(n);
        let stripped: String = s.chars().filter(|c| *c != ',').collect();
        assert_eq!(stripped, n.to_string());
        let len = s.chars().count();
        for (i, c) in s.chars().enumerate() {
            assert_eq!(c == ',', (len - i) % 4 == 0);
        }
    }
}

#[test]
fn decimal_digits_most_significant_first() {
    assert_eq!(decimal_digits(0), vec!['0']);
    assert_eq!(decimal_digits(305), vec!['3', '0', '5']);
    assert_eq!(decimal_digits(4000000000), vec!['4', '0', '0', '0', '0', '0', '0', '0', '0', '0']);
}

#[test]
fn wordcount_label_appends_words() {
    assert_eq!(wordcount_label(0), "0 words");
    assert_eq!(wordcount_label(1), "1 words");
    assert_eq!(wordcount_label(1234), "1,234 words");
}

#[test]
fn words_are_runs_of_word_characters_and_hyphens() {
    assert_eq!(count_matches_of_words(""), Some(0));
    assert_eq!(count_matches_of_words("   "), Some(0));
    assert_eq!(count_matches_of_words("hello world"), Some(2));
    assert_eq!(count_matches_of_words("well-known re-use"), Some(2));
    assert_eq!(count_matches_of_words("x+y=z"), Some(3));
    assert_eq!(count_matches_of_words("snake_case and 42"), Some(3));
    assert_eq!(count_matches_of_words("über café, naïve!"), Some(3));
    assert_eq!(count_matches_of_words("one.\ntwo\tthree"), Some(3));
}
