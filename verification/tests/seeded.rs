use payment_routing::seeded::{
    first_two_words, first_word_of, is_below_basis_points, is_below_percent, roll_of, UNIT,
};
use payment_routing::simulator::seeds::{hash_texts, hash_texts_and_number};

#[test]
fn a_seed_always_gives_the_same_words() {
    for seed in [0, 1, 42, u64::MAX] {
        let words = first_two_words(seed);
        assert_eq!(words, first_two_words(seed));
        assert_eq!(words.0, first_word_of(seed));
        // The generator gives neither its seed back nor the same word twice.
        assert_ne!(words.0, seed);
        assert_ne!(words.0, words.1);
    }
    assert_ne!(first_word_of(0), first_word_of(1));
    assert_ne!(first_word_of(42), first_word_of(43));
}

#[test]
fn rolls_are_the_upper_53_bits() {
    assert_eq!(UNIT, 1 << 53);
    assert_eq!(roll_of(0), 0);
    assert_eq!(roll_of(2047), 0);
    assert_eq!(roll_of(2048), 1);
    assert_eq!(roll_of(u64::MAX), UNIT - 1);
    assert_eq!(roll_of(1 << 63), UNIT / 2);
}

#[test]
fn rolls_are_compared_exactly() {
    // Half of 2^53 is 4503599627370496: the roll at a half is not below it.
    assert!(is_below_percent(4503599627370495, 50));
    assert!(!is_below_percent(4503599627370496, 50));
    assert!(is_below_basis_points(4503599627370495, 5000));
    assert!(!is_below_basis_points(4503599627370496, 5000));
    assert!(!is_below_percent(0, 0));
    assert!(is_below_percent(UNIT - 1, 100));
    assert!(is_below_percent(u64::MAX, u64::MAX));
    // One basis point of 2^53 is 900719925474.0992.
    assert!(is_below_basis_points(900719925474, 1));
    assert!(!is_below_basis_points(900719925475, 1));
    assert!(is_below_basis_points(9006298534815517, 9999));
    assert!(!is_below_basis_points(9006298534815518, 9999));
    assert!(!is_below_basis_points(0, 0));
    assert!(is_below_basis_points(u64::MAX, u32::MAX));
}

#[test]
fn hashes_keep_their_fields_apart() {
    let hash = hash_texts("a", "b", "c");
    assert_eq!(hash, hash_texts("a", "b", "c"));
    assert_ne!(hash, hash_texts("ab", "", "c"));
    assert_ne!(hash, hash_texts("", "ab", "c"));
    assert_ne!(hash, hash_texts("a", "bc", ""));
    assert_ne!(hash, hash_texts("c", "b", "a"));
    assert_ne!(hash_texts("t", "p", "latency"), hash_texts("t", "p", "unavailable_check"));
    let with_number = hash_texts_and_number("a", "b", "c", 0);
    assert_ne!(with_number, hash);
    assert_ne!(with_number, hash_texts_and_number("a", "b", "c", 1));
    assert_ne!(with_number, hash_texts_and_number("a", "b", "c", 1 << 56));
    assert_eq!(with_number, hash_texts_and_number("a", "b", "c", 0));
}
