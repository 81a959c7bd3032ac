use passgen::check_strength;
use passgen::strength::SCORE_SCALE;

fn percent(points: usize) -> f64 {
    (points as f64 / SCORE_SCALE as f64) * 100.0
}

#[test]
fn empty_password_scores_zero() {
    assert_eq!(check_strength(""), 0);
    assert_eq!(percent(check_strength("")), 0.0);
}

#[test]
fn adding_digits_raises_the_score() {
    assert_eq!(check_strength("hello"), 6);
    assert_eq!(check_strength("hello123"), 10);
    assert!(check_strength("hello123") > check_strength("hello"));
}

#[test]
fn score_counts_every_class() {
    assert_eq!(check_strength("aB3$"), 8);
    assert_eq!(check_strength("ABC"), 4);
    assert_eq!(check_strength("   "), 3);
}

#[test]
fn score_is_capped() {
    assert_eq!(check_strength("aaaaaaaaaaaaaaaaaaaB1!"), 24);
    assert_eq!(check_strength("aaaaaaaaaaaaaaaaaaaB1!"), SCORE_SCALE);
    let long = "x".repeat(500);
    assert_eq!(check_strength(&long), 24);
    assert_eq!(percent(check_strength(&long)), 100.0);
    assert_eq!(check_strength("abcdefghijklmnopqrstuvw"), 24);
    assert_eq!(check_strength("abcdefghijklmnopqrstuv"), 23);
}

#[test]
fn score_of_non_ascii_text() {
    assert_eq!(check_strength("héllo wörld"), 12);
    assert_eq!(check_strength("日本語"), 3);
    let p = percent(check_strength("héllo wörld"));
    assert!((0.0..=100.0).contains(&p));
    assert_eq!(percent(12), 50.0);
}
