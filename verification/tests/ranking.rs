use onagre::fuzzy::FuzzyScore;
use onagre::matcher::rank_texts;
use onagre::rank::{precedes, rank, Candidate};

fn key(gaps: usize, start: usize, weight: u8) -> Option<Candidate> {
    Some(Candidate { score: FuzzyScore { gaps, start }, weight })
}

fn strings(items: &[&str]) -> Vec<String> {
    let mut out = Vec::new();
    for item in items {
        out.push(item.to_string());
    }
    out
}

#[test]
fn rank_puts_the_better_score_first() {
    let keys = vec![key(2, 0, 0), key(0, 3, 0), key(0, 1, 0), key(1, 0, 0)];
    assert_eq!(rank(&keys), vec![2, 1, 3, 0]);
}

#[test]
fn rank_leaves_out_entries_without_a_key() {
    let keys = vec![None, key(0, 0, 0), None, key(0, 0, 0), None];
    assert_eq!(rank(&keys), vec![1, 3]);
    let none: Vec<Option<Candidate>> = vec![None, None];
    assert_eq!(rank(&none), Vec::<usize>::new());
    let empty: Vec<Option<Candidate>> = Vec::new();
    assert_eq!(rank(&empty), Vec::<usize>::new());
}

#[test]
fn rank_breaks_score_ties_by_weight() {
    let keys = vec![key(0, 0, 1), key(0, 0, 7), key(0, 0, 3)];
    assert_eq!(rank(&keys), vec![1, 2, 0]);
}

#[test]
fn weight_never_beats_a_better_score() {
    let keys = vec![key(1, 0, 255), key(0, 0, 0), key(0, 1, 200)];
    assert_eq!(rank(&keys), vec![1, 2, 0]);
}

#[test]
fn rank_breaks_full_ties_by_arrival() {
    let keys = vec![key(0, 0, 2), key(0, 0, 2), key(0, 0, 2), key(0, 0, 2)];
    assert_eq!(rank(&keys), vec![0, 1, 2, 3]);
}

#[test]
fn rank_is_the_same_on_every_call() {
    let keys = vec![key(3, 1, 0), key(0, 2, 9), None, key(0, 2, 9), key(0, 0, 0), key(3, 1, 4)];
    let first = rank(&keys);
    let second = rank(&keys);
    assert_eq!(first, second);
    assert_eq!(first, vec![4, 1, 3, 5, 0]);
}

#[test]
fn precedes_orders_by_score_weight_arrival() {
    let a = Candidate { score: FuzzyScore { gaps: 0, start: 0 }, weight: 0 };
    let b = Candidate { score: FuzzyScore { gaps: 0, start: 1 }, weight: 9 };
    let c = Candidate { score: FuzzyScore { gaps: 0, start: 0 }, weight: 1 };
    assert!(precedes(&a, 5, &b, 0));
    assert!(!precedes(&b, 0, &a, 5));
    assert!(precedes(&c, 5, &a, 0));
    assert!(!precedes(&a, 0, &c, 5));
    assert!(precedes(&a, 0, &a, 1));
    assert!(!precedes(&a, 1, &a, 0));
    assert!(!precedes(&a, 1, &a, 1));
}

#[test]
fn rank_texts_orders_matches_and_drops_the_rest() {
    let pool = strings(&["gimp", "Firefox", "Files", "xterm", "Thunderbird"]);
    let weights: Vec<u8> = Vec::new();
    // "fi": Firefox and Files both at start 0 without gaps; arrival decides.
    assert_eq!(rank_texts(&pool, &weights, "fi"), vec![1, 2]);
    // "r": Firefox has r at 2, xterm at 3, Thunderbird at 5.
    assert_eq!(rank_texts(&pool, &weights, "r"), vec![1, 3, 4]);
    assert_eq!(rank_texts(&pool, &weights, "zzz"), Vec::<usize>::new());
}

#[test]
fn rank_texts_uses_the_weights_on_ties() {
    let pool = strings(&["Firefox", "Files"]);
    assert_eq!(rank_texts(&pool, &vec![0, 0], "f"), vec![0, 1]);
    assert_eq!(rank_texts(&pool, &vec![0, 1], "f"), vec![1, 0]);
    assert_eq!(rank_texts(&pool, &vec![1, 0], "f"), vec![0, 1]);
    // A weight that is missing counts as 0.
    assert_eq!(rank_texts(&pool, &vec![0], "f"), vec![0, 1]);
    // Weight does not help a worse match.
    assert_eq!(rank_texts(&pool, &vec![0, 200], "fir"), vec![0]);
    assert_eq!(rank_texts(&pool, &vec![0, 200], "ie"), vec![1, 0]);
}

#[test]
fn rank_texts_shows_a_text_once() {
    let pool = strings(&["Files", "Firefox", "Files", "Firefox", "Files"]);
    let weights: Vec<u8> = vec![0, 0, 9, 9, 9];
    assert_eq!(rank_texts(&pool, &weights, "f"), vec![0, 1]);
}

#[test]
fn rank_texts_with_empty_query_keeps_arrival_order_of_distinct_texts() {
    let pool = strings(&["b", "a", "b", "c"]);
    let weights: Vec<u8> = Vec::new();
    assert_eq!(rank_texts(&pool, &weights, ""), vec![0, 1, 3]);
}
