use passcheck::similarity::{best_match, best_match_at, lcs_of_chars, similarity};

fn corpus(words: &[&str]) -> Vec<String> {
    words.iter().map(|w| w.to_string()).collect()
}

#[test]
fn identical_strings_score_one() {
    let s = similarity("hello", "hello");
    assert!(s.is_one());
    assert_eq!(s.numerator(), 5);
    assert_eq!(s.denominator(), 5);
    assert!(s.reaches_percent(100));
}

#[test]
fn empty_strings_score_one() {
    let s = similarity("", "");
    assert!(s.is_one());
    assert_eq!((s.numerator(), s.denominator()), (1, 1));
}

#[test]
fn empty_against_text_scores_zero() {
    let s = similarity("", "abc");
    assert_eq!((s.numerator(), s.denominator()), (0, 3));
    assert!(!s.is_one());
    assert!(s.reaches_percent(0));
    assert!(!s.reaches_percent(1));
}

#[test]
fn age_and_page_share_three_of_four() {
    let s = similarity("age", "page");
    assert_eq!((s.numerator(), s.denominator()), (3, 4));
    assert!(s.reaches_percent(75));
    assert!(!s.reaches_percent(76));
}

#[test]
fn longest_and_stone_share_three_of_seven() {
    let s = similarity("longest", "stone");
    assert_eq!((s.numerator(), s.denominator()), (3, 7));
}

#[test]
fn similarity_is_symmetric_on_examples() {
    let pairs = [("longest", "stone"), ("fight", "night"), ("", "x"), ("abc", "xyz")];
    for (a, b) in pairs {
        let ab = similarity(a, b);
        let ba = similarity(b, a);
        assert!(ab.same_as(&ba));
        assert_eq!(ab, ba);
    }
}

#[test]
fn unrelated_strings_score_zero() {
    let s = similarity("abc", "xyz");
    assert_eq!(s.numerator(), 0);
    assert!(!s.reaches_percent(1));
}

#[test]
fn scores_compare_as_fractions() {
    let half = similarity("ab", "a");
    let two_quarters = similarity("abxy", "abcd");
    let three_quarters = similarity("age", "page");
    assert!(half.same_as(&two_quarters));
    assert_ne!(half, two_quarters);
    assert!(three_quarters.exceeds(&half));
    assert!(!half.exceeds(&three_quarters));
    assert!(!half.exceeds(&two_quarters));
}

#[test]
fn best_match_of_empty_corpus_is_none() {
    let words: Vec<String> = Vec::new();
    assert!(best_match("anything", &words).is_none());
    assert!(best_match_at("anything", &words).is_none());
}

#[test]
fn best_match_of_singleton_is_that_entry() {
    let words = corpus(&["stone"]);
    let (entry, score) = best_match("longest", &words).unwrap();
    assert_eq!(entry, "stone");
    assert_eq!(score, similarity("longest", "stone"));
    let (index, at_score) = best_match_at("longest", &words).unwrap();
    assert_eq!(index, 0);
    assert_eq!(at_score, score);
}

#[test]
fn best_match_finds_the_closest_entry() {
    let words = corpus(&["blight", "night", "stride"]);
    let (entry, score) = best_match("fight", &words).unwrap();
    assert_eq!(entry, "night");
    assert_eq!((score.numerator(), score.denominator()), (4, 5));
    assert!(score.reaches_percent(80));
    assert!(!score.reaches_percent(81));
}

#[test]
fn best_match_scans_to_the_end() {
    let words = corpus(&["fill", "ride", "blight", "fight"]);
    let (index, score) = best_match_at("fight", &words).unwrap();
    assert_eq!(index, 3);
    assert!(score.is_one());
}

#[test]
fn first_of_equal_scores_wins() {
    let words = corpus(&["xa", "ab", "ba", "ay"]);
    let (index, score) = best_match_at("a", &words).unwrap();
    assert_eq!(index, 0);
    assert_eq!((score.numerator(), score.denominator()), (1, 2));
    let (entry, _) = best_match("a", &words).unwrap();
    assert_eq!(entry, "xa");
}

#[test]
fn ascii_against_longer_text_with_other_characters() {
    let s = similarity("a", "\u{e9}a");
    assert_eq!((s.numerator(), s.denominator()), (1, 2));
    let s = similarity("\u{e9}a", "a");
    assert_eq!((s.numerator(), s.denominator()), (1, 2));
    let s = similarity("pass", "p\u{e4}ss\u{2014}word");
    assert_eq!((s.numerator(), s.denominator()), (3, 9));
    let s = similarity("p\u{e4}ss\u{2014}word", "pass");
    assert_eq!((s.numerator(), s.denominator()), (3, 9));
}

#[test]
fn text_outside_ascii_is_fully_similar_to_itself() {
    for x in ["\u{e9}", "p\u{e4}\u{2014}", "\u{65e5}\u{672c}\u{8a9e}", "na\u{ef}ve caf\u{e9}"] {
        let s = similarity(x, x);
        assert!(s.is_one(), "{}", x);
        assert_eq!(s.numerator(), x.chars().count());
        assert_eq!(s.denominator(), x.chars().count());
    }
}

#[test]
fn shorter_text_outside_ascii_is_counted_by_characters() {
    let s = similarity("\u{e9}", "abc\u{e9}");
    assert_eq!((s.numerator(), s.denominator()), (1, 4));
    let s = similarity("abc\u{e9}", "\u{e9}");
    assert_eq!((s.numerator(), s.denominator()), (1, 4));
    let s = similarity("\u{65e5}\u{672c}", "\u{672c}\u{65e5}\u{672c}x");
    assert_eq!((s.numerator(), s.denominator()), (2, 4));
}

#[test]
fn both_orders_agree_at_equal_byte_lengths() {
    let ab = similarity("\u{e9}a", "abc");
    let ba = similarity("abc", "\u{e9}a");
    assert_eq!((ab.numerator(), ab.denominator()), (1, 3));
    assert_eq!((ba.numerator(), ba.denominator()), (1, 3));
    assert_eq!(ab, ba);
}

#[test]
fn lcs_of_chars_counts_the_longest_common_subsequence() {
    let chars = |s: &str| s.chars().collect::<Vec<char>>();
    assert_eq!(lcs_of_chars(&chars("longest"), &chars("stone")), 3);
    assert_eq!(lcs_of_chars(&chars("stone"), &chars("longest")), 3);
    assert_eq!(lcs_of_chars(&chars(""), &chars("stone")), 0);
    assert_eq!(lcs_of_chars(&chars("stone"), &chars("")), 0);
    assert_eq!(lcs_of_chars(&chars("abc"), &chars("xyz")), 0);
    assert_eq!(lcs_of_chars(&chars("hello"), &chars("hello")), 5);
    assert_eq!(lcs_of_chars(&chars("AGGTAB"), &chars("GXTXAYB")), 4);
    assert_eq!(lcs_of_chars(&chars("\u{65e5}\u{672c}\u{8a9e}x"), &chars("\u{672c}x\u{8a9e}")), 2);
}

#[test]
fn both_ways_of_counting_agree_on_ascii() {
    let chars = |s: &str| s.chars().collect::<Vec<char>>();
    for (a, b) in [("fight", "night"), ("password", "passw0rd1"), ("a", ""), ("abcabc", "cba")] {
        assert_eq!(similarity(a, b).numerator(), lcs_of_chars(&chars(a), &chars(b)));
    }
}
