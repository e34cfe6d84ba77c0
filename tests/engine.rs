use edit_distance::levenshtein::{distance, fits_lengths, Levenshtein};

fn d(a: &str, b: &str) -> u32 {
    distance(&a.to_string(), &b.to_string())
}

#[test]
fn both_empty_are_at_distance_zero() {
    assert_eq!(d("", ""), 0);
}

#[test]
fn a_string_is_at_distance_zero_from_itself() {
    for s in ["", "a", "kitten", "テスト", "aaaa"] {
        assert_eq!(d(s, s), 0);
    }
}

#[test]
fn distance_is_symmetric() {
    assert_eq!(d("kitten", "sitting"), 3);
    assert_eq!(d("sitting", "kitten"), 3);
    assert_eq!(d("flaw", "lawn"), d("lawn", "flaw"));
}

#[test]
fn distance_lies_between_the_length_bounds() {
    let pairs = [("kitten", "sitting"), ("abc", ""), ("", "xyz"), ("abc", "xyz"), ("ab", "abcdef")];
    for (a, b) in pairs {
        let (la, lb) = (a.chars().count() as u32, b.chars().count() as u32);
        let r = d(a, b);
        assert!(r >= la.max(lb) - la.min(lb));
        assert!(r <= la.max(lb));
    }
    assert_eq!(d("abc", "xyz"), 3);
    assert_eq!(d("ab", "abcdef"), 4);
}

#[test]
fn distance_from_empty_is_the_length() {
    assert_eq!(d("", "テストです"), 5);
    assert_eq!(d("テストです", ""), 5);
}

#[test]
fn triangle_inequality_holds() {
    let (a, b, c) = ("kitten", "sitten", "sitting");
    assert_eq!(d(a, b), 1);
    assert_eq!(d(b, c), 2);
    assert_eq!(d(a, c), 3);
    assert!(d(a, c) <= d(a, b) + d(b, c));
    let (x, y, z) = ("abc", "", "cba");
    assert!(d(x, z) <= d(x, y) + d(y, z));
    assert_eq!(d(x, z), 2);
}

#[test]
fn distance_zero_only_for_equal_strings() {
    assert_ne!(d("ab", "ba"), 0);
    assert_eq!(d("ab", "ba"), 2);
}

#[test]
fn engine_on_characters_matches_the_free_function() {
    let a: Vec<char> = "saturday".chars().collect();
    let b: Vec<char> = "sunday".chars().collect();
    let mut l = Levenshtein::new(&a, &b);
    assert_eq!(l.distance(), 3);
    assert_eq!(d("saturday", "sunday"), 3);
}

#[test]
fn engine_repeated_queries_agree() {
    let a: Vec<char> = "intention".chars().collect();
    let b: Vec<char> = "execution".chars().collect();
    let mut l = Levenshtein::new(&a, &b);
    assert_eq!(l.distance(), 5);
    assert_eq!(l.distance(), 5);
}

#[test]
fn engine_on_integers() {
    let a: Vec<u64> = vec![1, 2, 3, 4, 5];
    let b: Vec<u64> = vec![0, 2, 3, 5, 6, 7];
    let mut l = Levenshtein::new(&a, &b);
    assert_eq!(l.distance(), 4);
}

#[test]
fn engine_on_empty_sequences() {
    let a: Vec<u8> = vec![];
    let b: Vec<u8> = vec![7, 7, 7];
    assert_eq!(Levenshtein::new(&a, &b).distance(), 3);
    assert_eq!(Levenshtein::new(&b, &a).distance(), 3);
    assert_eq!(Levenshtein::new(&a, &a).distance(), 0);
}

#[test]
fn engine_debug_dump_names_the_sequences() {
    let a: Vec<char> = "ab".chars().collect();
    let b: Vec<char> = "b".chars().collect();
    let mut l = Levenshtein::new(&a, &b);
    assert_eq!(l.distance(), 1);
    let dump = format!("{:?}", l);
    assert!(dump.contains("Levenshtein"));
}

#[test]
fn lengths_that_fit_and_lengths_that_do_not() {
    assert!(fits_lengths(0, 0));
    assert!(fits_lengths(13, 16));
    assert!(fits_lengths(70_000, 70_000));
    assert!(!fits_lengths(u32::MAX as usize, 0));
    assert!(!fits_lengths(0, u32::MAX as usize));
    assert!(fits_lengths(u32::MAX as usize - 1, 0));
}
