use tadahash::combinations::{join, Candidates};

fn all(alphabet: &str, length: usize) -> Vec<String> {
    let symbols: Vec<char> = alphabet.chars().collect();
    let mut candidates = Candidates::new(&symbols, length);
    let mut out = Vec::new();
    while let Some(text) = candidates.next() {
        out.push(text);
    }
    assert_eq!(candidates.next(), None);
    out
}

fn binomial(n: u64, k: u64) -> u64 {
    if k > n {
        return 0;
    }
    let mut value = 1u64;
    for i in 0..k {
        value = value * (n - i) / (i + 1);
    }
    value
}

#[test]
fn pairs_over_three_symbols() {
    assert_eq!(all("abc", 2), vec!["aa", "ab", "ac", "bb", "bc", "cc"]);
}

#[test]
fn symbols_keep_the_order_of_the_alphabet() {
    assert_eq!(all("ba", 2), vec!["bb", "ba", "aa"]);
}

#[test]
fn length_zero_gives_the_empty_text_once() {
    assert_eq!(all("ab", 0), vec![""]);
    assert_eq!(all("", 0), vec![""]);
}

#[test]
fn empty_alphabet_gives_nothing() {
    assert_eq!(all("", 1), Vec::<String>::new());
    assert_eq!(all("", 3), Vec::<String>::new());
}

#[test]
fn single_symbols() {
    assert_eq!(all("xyz", 1), vec!["x", "y", "z"]);
}

#[test]
fn triples_over_two_symbols() {
    assert_eq!(all("ab", 3), vec!["aaa", "aab", "abb", "bbb"]);
}

#[test]
fn count_is_the_binomial_coefficient() {
    assert_eq!(all("abcd", 3).len(), 20);
    let alphabet = "abcdef";
    for size in 0..=alphabet.len() {
        for length in 0..5usize {
            let count = all(&alphabet[..size], length).len() as u64;
            let expected = if size + length == 0 {
                1
            } else {
                binomial((size + length - 1) as u64, length as u64)
            };
            assert_eq!(count, expected);
        }
    }
}

#[test]
fn candidates_are_distinct_and_of_the_asked_length() {
    let found = all("abcde", 4);
    for text in &found {
        assert_eq!(text.chars().count(), 4);
    }
    let mut sorted = found.clone();
    sorted.sort();
    sorted.dedup();
    assert_eq!(sorted.len(), found.len());
}

#[test]
fn every_multiset_is_covered() {
    let found = all("abc", 3);
    for a in 0..3 {
        for b in a..3 {
            for c in b..3 {
                let text: String = [a, b, c].iter().map(|&i| ['a', 'b', 'c'][i]).collect();
                assert_eq!(found.iter().filter(|t| **t == text).count(), 1);
            }
        }
    }
    assert_eq!(found.len(), 10);
}

#[test]
fn repeated_symbol_gives_repeated_candidates() {
    assert_eq!(all("aa", 1), vec!["a", "a"]);
}

#[test]
fn enumeration_starts_afresh() {
    assert_eq!(all("ab", 2), all("ab", 2));
}

#[test]
fn join_keeps_the_symbols() {
    assert_eq!(join(&vec!['h', 'é', '!']), "hé!");
    assert_eq!(join(&Vec::new()), "");
}

#[test]
fn long_candidates_over_one_symbol() {
    let symbols = vec!['z'];
    let mut candidates = Candidates::new(&symbols, 70_000);
    let only = candidates.next().unwrap();
    assert_eq!(only.len(), 70_000);
    assert!(only.chars().all(|c| c == 'z'));
    assert_eq!(candidates.next(), None);
}
