use onagre::fuzzy::{fuzzy_score, score_chars, FuzzyScore};
use onagre::text::{chars_of, fold_char, folded_chars, same_bytes, same_text};

fn score(gaps: usize, start: usize) -> Option<FuzzyScore> {
    Some(FuzzyScore { gaps, start })
}

#[test]
fn single_letter_scores_alike_on_both_names() {
    assert_eq!(fuzzy_score("f", "Firefox"), score(0, 0));
    assert_eq!(fuzzy_score("f", "Files"), score(0, 0));
}

#[test]
fn score_counts_skipped_characters_and_start() {
    // F i r e f o x: the closest "fx" is f at 4 and x at 6.
    assert_eq!(fuzzy_score("fx", "Firefox"), score(1, 4));
    assert_eq!(fuzzy_score("fire", "Firefox"), score(0, 0));
    assert_eq!(fuzzy_score("fox", "Firefox"), score(0, 4));
    assert_eq!(fuzzy_score("ffx", "Firefox"), score(4, 0));
    assert_eq!(fuzzy_score("x", "Firefox"), score(0, 6));
}

#[test]
fn fewer_gaps_beat_an_earlier_start() {
    // "ab" in "a-b ab": at 0 with one gap, at 4 with none.
    assert_eq!(fuzzy_score("ab", "a-b ab"), score(0, 4));
}

#[test]
fn equal_gaps_prefer_the_earlier_start() {
    assert_eq!(fuzzy_score("ab", "ab ab"), score(0, 0));
    assert_eq!(fuzzy_score("ab", "a-b a-b"), score(1, 0));
}

#[test]
fn later_start_can_close_a_gap_that_the_first_start_leaves() {
    // From the first `a` the nearest `c` after a `b` is far; from the second it is close.
    assert_eq!(fuzzy_score("abc", "a b a b c"), score(2, 4));
}

#[test]
fn query_that_is_no_subsequence_does_not_match() {
    assert_eq!(fuzzy_score("b", "a.txt"), None);
    assert_eq!(fuzzy_score("xf", "Firefox"), None);
    assert_eq!(fuzzy_score("firefoxx", "Firefox"), None);
    assert_eq!(fuzzy_score("a", ""), None);
}

#[test]
fn matching_ignores_ascii_case() {
    assert_eq!(fuzzy_score("FIRE", "firefox"), score(0, 0));
    assert_eq!(fuzzy_score("fire", "FIREFOX"), score(0, 0));
    assert_eq!(fuzzy_score("b", "B.TXT"), score(0, 0));
}

#[test]
fn matching_does_not_fold_other_letters() {
    assert_eq!(fuzzy_score("é", "É"), None);
    assert_eq!(fuzzy_score("é", "café"), score(0, 3));
}

#[test]
fn empty_query_matches_everything_with_nothing_skipped() {
    assert_eq!(fuzzy_score("", "Firefox"), score(0, 0));
    assert_eq!(fuzzy_score("", ""), score(0, 0));
}

#[test]
fn score_chars_compares_characters_as_they_are() {
    let query: Vec<char> = vec!['F'];
    let text: Vec<char> = vec!['f', 'F'];
    assert_eq!(score_chars(&query, &text), score(0, 1));
    let lower: Vec<char> = vec!['g'];
    assert_eq!(score_chars(&lower, &text), None);
}

#[test]
fn scoring_twice_gives_the_same_score() {
    let first = fuzzy_score("trm", "Terminal emulator");
    let second = fuzzy_score("trm", "Terminal emulator");
    assert_eq!(first, second);
    assert_eq!(first, score(1, 0));
}

#[test]
fn fold_char_lowers_ascii_capitals_only() {
    assert_eq!(fold_char('A'), 'a');
    assert_eq!(fold_char('Z'), 'z');
    assert_eq!(fold_char('a'), 'a');
    assert_eq!(fold_char('@'), '@');
    assert_eq!(fold_char('['), '[');
    assert_eq!(fold_char('É'), 'É');
    assert_eq!(fold_char('5'), '5');
}

#[test]
fn chars_of_lists_the_characters() {
    assert_eq!(chars_of("aé€"), vec!['a', 'é', '€']);
    assert_eq!(chars_of(""), Vec::<char>::new());
    assert_eq!(folded_chars("AbC é"), vec!['a', 'b', 'c', ' ', 'é']);
}

#[test]
fn same_text_and_same_bytes_compare_contents() {
    assert!(same_text("abc", "abc"));
    assert!(!same_text("abc", "abd"));
    assert!(!same_text("abc", "ab"));
    assert!(same_text("", ""));
    assert!(same_bytes(&[1, 2, 3], &[1, 2, 3]));
    assert!(!same_bytes(&[1, 2, 3], &[1, 2]));
    assert!(!same_bytes(&[1, 2, 3], &[1, 2, 4]));
}
