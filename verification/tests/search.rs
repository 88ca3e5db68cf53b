use skillrefs::search::at_least;
use skillrefs::search::at_most;
use skillrefs::search::chars_of;
use skillrefs::search::edit_distance;
use skillrefs::search::rank;
use skillrefs::search::score_of;
use skillrefs::search::Score;
use skillrefs::search::DEFAULT_THRESHOLD;

fn chars(text: &str) -> Vec<char> {
    text.chars().collect()
}

fn list(names: &[&str]) -> Vec<String> {
    names.iter().map(|name| String::from(*name)).collect()
}

fn apart(a: &str, b: &str) -> usize {
    edit_distance(&chars(a), &chars(b))
}

#[test]
fn chars_of_splits_by_character() {
    assert_eq!(chars_of(&String::from("añ✓")), vec!['a', 'ñ', '✓']);
    assert_eq!(chars_of(&String::new()), Vec::<char>::new());
}

#[test]
fn distance_of_known_pairs() {
    assert_eq!(apart("kitten", "sitting"), 3);
    assert_eq!(apart("flaw", "lawn"), 2);
    assert_eq!(apart("pyth", "python"), 2);
    assert_eq!(apart("pyth", "java"), 4);
    assert_eq!(apart("pyth", "typescript"), 9);
    assert_eq!(apart("rust", "rust"), 0);
    assert_eq!(apart("añb", "anb"), 1);
}

#[test]
fn distance_to_the_empty_text_is_the_length() {
    assert_eq!(apart("", ""), 0);
    assert_eq!(apart("", "abc"), 3);
    assert_eq!(apart("abc", ""), 3);
}

#[test]
fn distance_is_the_same_both_ways() {
    assert_eq!(apart("sitting", "kitten"), apart("kitten", "sitting"));
    assert_eq!(apart("python", "pyth"), 2);
}

#[test]
fn score_counts_what_needs_no_edit() {
    let found = score_of(&chars("pyth"), &chars("python"));
    assert_eq!((found.same, found.of), (4, 6));
    let found = score_of(&chars("pyth"), &chars("java"));
    assert_eq!((found.same, found.of), (0, 4));
    let found = score_of(&chars("rust"), &chars("rust"));
    assert_eq!((found.same, found.of), (4, 4));
}

#[test]
fn score_of_two_empty_texts_is_one() {
    let found = score_of(&chars(""), &chars(""));
    assert_eq!((found.same, found.of), (1, 1));
}

#[test]
fn scores_compare_as_fractions() {
    let half = Score { same: 1, of: 2 };
    let two_thirds = Score { same: 4, of: 6 };
    let also_half = Score { same: 3, of: 6 };
    assert!(at_most(half, two_thirds));
    assert!(!at_most(two_thirds, half));
    assert!(at_most(half, also_half));
    assert!(at_most(also_half, half));
    let large = Score { same: u64::MAX - 1, of: u64::MAX };
    let larger = Score { same: u64::MAX, of: u64::MAX };
    assert!(at_most(large, larger));
    assert!(!at_most(larger, large));
}

#[test]
fn threshold_is_met_from_its_value_on() {
    let half = Score { same: 1, of: 2 };
    assert!(at_least(half, 50));
    assert!(at_least(half, 49));
    assert!(!at_least(half, 51));
    assert!(at_least(Score { same: 0, of: 4 }, 0));
    assert!(!at_least(Score { same: 4, of: 4 }, 101));
    assert!(!at_least(Score { same: u64::MAX, of: u64::MAX }, u32::MAX));
}

#[test]
fn default_threshold_is_one_half() {
    assert_eq!(DEFAULT_THRESHOLD, 50);
}

#[test]
fn search_finds_python_for_pyth() {
    let catalog = list(&["python", "java", "typescript"]);
    let found = rank(&String::from("pyth"), &catalog, DEFAULT_THRESHOLD);
    assert_eq!(found, list(&["python"]));
}

#[test]
fn search_lists_the_weakest_match_first() {
    let catalog = list(&["rust", "trust", "dust", "java"]);
    let found = rank(&String::from("rust"), &catalog, DEFAULT_THRESHOLD);
    assert_eq!(found, list(&["dust", "trust", "rust"]));
}

#[test]
fn search_keeps_equal_scores_in_their_order() {
    let catalog = list(&["must", "dust", "rusty", "trust"]);
    let found = rank(&String::from("rust"), &catalog, DEFAULT_THRESHOLD);
    assert_eq!(found, list(&["must", "dust", "rusty", "trust"]));
    let catalog = list(&["dust", "must"]);
    let found = rank(&String::from("rust"), &catalog, DEFAULT_THRESHOLD);
    assert_eq!(found, list(&["dust", "must"]));
}

#[test]
fn search_without_a_match_is_empty() {
    let catalog = list(&["java", "typescript"]);
    assert_eq!(rank(&String::from("pyth"), &catalog, DEFAULT_THRESHOLD), Vec::<String>::new());
    assert_eq!(rank(&String::from("pyth"), &Vec::new(), DEFAULT_THRESHOLD), Vec::<String>::new());
}

#[test]
fn search_with_threshold_zero_lists_everything() {
    let catalog = list(&["python", "java", "typescript"]);
    let found = rank(&String::from("pyth"), &catalog, 0);
    assert_eq!(found, list(&["java", "typescript", "python"]));
}

#[test]
fn search_with_the_highest_threshold_asks_for_equality() {
    let catalog = list(&["rust", "trust"]);
    assert_eq!(rank(&String::from("rust"), &catalog, 100), list(&["rust"]));
    assert_eq!(rank(&String::from("rust"), &catalog, 101), Vec::<String>::new());
}

#[test]
fn search_at_the_threshold_keeps_the_match() {
    let catalog = list(&["lawn"]);
    assert_eq!(rank(&String::from("flaw"), &catalog, 50), list(&["lawn"]));
    assert_eq!(rank(&String::from("flaw"), &catalog, 51), Vec::<String>::new());
}
