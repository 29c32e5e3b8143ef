use flat_map::{flat_map, CharsMapper, FlatMap, NestedCharsMapper, PullIterator, StringChars, VecIter};

fn owned(words: &[&str]) -> Vec<String> {
    words.iter().map(|w| w.to_string()).collect()
}

fn drain_chars(words: &[&str]) -> String {
    let mut it = flat_map(VecIter::new(owned(words)), CharsMapper);
    let mut merged = String::new();
    while let Some(c) = it.next() {
        merged.push(c);
    }
    merged
}

#[test]
fn std_lib_test() {
    let merged: String = drain_chars(&["123", "GGG", "AAAA"]);

    assert_eq!(merged, "123GGGAAAA");
}

#[test]
fn ignore_whitespaces() {
    let words = ["alpha", "", "beta", "", "", "gamma"];
    let merged: String = drain_chars(&words);

    assert_eq!(merged, "alphabetagamma");
}

#[test]
fn order_is_concatenation() {
    assert_eq!(drain_chars(&["ab", "cd", "e"]), "abcde");
}

#[test]
fn empty_expansions_match_removed() {
    assert_eq!(drain_chars(&["a", "", "b", ""]), drain_chars(&["a", "b"]));
    assert_eq!(drain_chars(&["", "", ""]), drain_chars(&[]));
}

#[test]
fn empty_outer_is_exhausted() {
    let mut it = flat_map(VecIter::new(Vec::<String>::new()), CharsMapper);
    assert_eq!(it.next(), None);
}

#[test]
fn exhaustion_is_idempotent() {
    let mut it = flat_map(VecIter::new(owned(&["xy", ""])), CharsMapper);
    assert_eq!(it.next(), Some('x'));
    assert_eq!(it.next(), Some('y'));
    assert_eq!(it.next(), None);
    assert_eq!(it.next(), None);
    assert_eq!(it.next(), None);
}

#[test]
fn new_builds_the_same_adapter() {
    let mut it = FlatMap::new(VecIter::new(owned(&["q", "rs"])), CharsMapper);
    let mut merged = String::new();
    while let Some(c) = it.next() {
        merged.push(c);
    }
    assert_eq!(merged, "qrs");
}

#[test]
fn unicode_characters_flatten() {
    assert_eq!(drain_chars(&["αβ", "γ"]), "αβγ");
}

#[test]
fn adapters_nest() {
    let groups = vec![owned(&["ab", "c"]), owned(&[]), owned(&["", "d"])];
    let mut it = flat_map(VecIter::new(groups), NestedCharsMapper);
    let mut merged = String::new();
    while let Some(c) = it.next() {
        merged.push(c);
    }
    assert_eq!(merged, "abcd");
}

#[test]
fn vec_iter_yields_in_order() {
    let mut it = VecIter::new(vec![1i32, 2, 3]);
    assert_eq!(it.next(), Some(1));
    assert_eq!(it.next(), Some(2));
    assert_eq!(it.next(), Some(3));
    assert_eq!(it.next(), None);
}

#[test]
fn string_chars_yields_in_order() {
    let mut it = StringChars::new("xyz".to_string());
    assert_eq!(it.next(), Some('x'));
    assert_eq!(it.next(), Some('y'));
    assert_eq!(it.next(), Some('z'));
    assert_eq!(it.next(), None);
    assert_eq!(it.next(), None);
}
