use lexpat::{alternate, lit, repeat, CharPattern, ReadPattern, ANY};

#[test]
fn any_pattern() {
    assert!(ANY.test_pattern("q"));
    assert!(ANY.test_pattern("😀"));
    assert_eq!(ANY.read_pattern("😀"), Some('😀'.len_utf8()));
    assert!(ANY.test_pattern("Ф"));
    assert!(!ANY.test_pattern(""));

    let any_text = repeat(ANY, 0, None);
    assert!(any_text.test_pattern(""));
    assert!(any_text.test_pattern("🍏🍎🍐🍊🍋🍌"));
    assert!(any_text.test_pattern("Привет, мир!"));
}

#[test]
fn any_repeated_consumes_whole_byte_length() {
    let any_text = repeat(ANY, 0, None);
    assert_eq!(any_text.read_pattern(""), Some(0));
    assert_eq!(any_text.read_pattern("🍏🍎🍐🍊🍋🍌"), Some(24));
    assert_eq!(any_text.read_pattern("Привет, мир!"), Some(21));
    assert_eq!(any_text.read_pattern("abc"), Some(3));
}

#[test]
fn char_pattern_multibyte() {
    let p = CharPattern { ch: 'Ф' };
    assert_eq!(p.read_pattern("Фу"), Some(2));
    assert_eq!(p.read_pattern("уФ"), None);
    assert_eq!(p.read_pattern(""), None);
    assert!(p.test_pattern("Ф"));
    assert!(!p.test_pattern("Фу"));
}

#[test]
fn alternation_is_left_biased() {
    let both = alternate(lit("ab"), lit("a"));
    assert_eq!(both.read_pattern("ab"), Some(2));

    let flipped = alternate(lit("a"), lit("ab"));
    assert_eq!(flipped.read_pattern("ab"), Some(1));

    let neither = alternate(lit("x"), lit("y"));
    assert_eq!(neither.read_pattern("ab"), None);

    let second_only = alternate(lit("x"), lit("a"));
    assert_eq!(second_only.read_pattern("ab"), Some(1));
}

#[test]
fn repeat_bounds() {
    let a = CharPattern { ch: 'a' };

    let two_to_three = repeat(a, 2, Some(3));
    assert_eq!(two_to_three.read_pattern(""), None);
    assert_eq!(two_to_three.read_pattern("a"), None);
    assert_eq!(two_to_three.read_pattern("aa"), Some(2));
    assert_eq!(two_to_three.read_pattern("aaa"), Some(3));
    // Greedy expansion is capped at the upper bound: the fourth `a` stays.
    assert_eq!(two_to_three.read_pattern("aaaa"), Some(3));

    let exactly_two = repeat(a, 2, Some(2));
    assert_eq!(exactly_two.read_pattern("aaa"), Some(2));
    assert_eq!(exactly_two.read_pattern("a"), None);

    let zero_allowed = repeat(a, 0, Some(1));
    assert_eq!(zero_allowed.read_pattern("b"), Some(0));
    assert_eq!(zero_allowed.read_pattern("aa"), Some(1));

    let unbounded = repeat(a, 1, None);
    assert_eq!(unbounded.read_pattern("aaaab"), Some(4));
    assert_eq!(unbounded.read_pattern("b"), None);
}

#[test]
fn lit_pattern_prefixes() {
    let p = lit("abc");
    assert_eq!(p.read_pattern("abcd"), Some(3));
    assert_eq!(p.read_pattern("abc"), Some(3));
    assert_eq!(p.read_pattern("ab"), None);
    assert_eq!(p.read_pattern("xbc"), None);
    assert_eq!(p.read_pattern(""), None);

    let empty = lit("");
    assert_eq!(empty.read_pattern("anything"), Some(0));
    assert_eq!(empty.read_pattern(""), Some(0));

    let cyr = lit("При");
    assert_eq!(cyr.read_pattern("Привет"), Some(6));
    assert_eq!(cyr.read_pattern("Пр"), None);
}
