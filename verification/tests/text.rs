use desktop_entry::text::{
    copy_range, equals_str, extend_chars, find_from, is_blank_str, is_whitespace_char,
    push_chars, same_str,
    split, split_once, starts_with, to_chars, to_string, trim,
};

fn chars(s: &str) -> Vec<char> {
    s.chars().collect()
}

fn text(v: &Vec<char>) -> String {
    v.iter().collect()
}

#[test]
fn whitespace_is_what_the_standard_library_calls_whitespace() {
    let mut c = 0u32;
    while c <= 0x10FFFF {
        if let Some(ch) = char::from_u32(c) {
            assert_eq!(is_whitespace_char(ch), ch.is_whitespace(), "U+{:04X}", c);
        }
        c += 1;
    }
}

#[test]
fn to_chars_and_to_string_are_inverse() {
    let s = "Name[fr]=Éditeur de texte ✓";
    let v = to_chars(s);
    assert_eq!(v, chars(s));
    assert_eq!(to_string(&v), s);
    assert_eq!(to_string(&Vec::new()), "");
}

#[test]
fn trim_agrees_with_the_standard_library() {
    for s in [
        "",
        " ",
        "a",
        "  a b  ",
        "\t\r\nx\u{00A0}\u{3000}",
        "\u{2003}é \u{2028}",
        " \u{200B} ",
        "\u{0085}y\u{1680}",
    ] {
        assert_eq!(text(&trim(&chars(s))), s.trim(), "{:?}", s);
    }
}

#[test]
fn copy_range_takes_the_half_open_range() {
    let v = chars("abcdef");
    assert_eq!(text(&copy_range(&v, 1, 4)), "bcd");
    assert_eq!(text(&copy_range(&v, 2, 2)), "");
    assert_eq!(text(&copy_range(&v, 0, 6)), "abcdef");
}

#[test]
fn find_from_gives_the_first_position_or_the_length() {
    let v = chars("a=b=c");
    assert_eq!(find_from(&v, 0, '='), 1);
    assert_eq!(find_from(&v, 2, '='), 3);
    assert_eq!(find_from(&v, 4, '='), 5);
    assert_eq!(find_from(&v, 5, '='), 5);
}

#[test]
fn split_agrees_with_the_standard_library() {
    for s in ["", ";", "a", "a;b", "a;;b;", ";a", "Office;Utility;"] {
        let got: Vec<String> = split(&chars(s), ';').iter().map(text).collect();
        let want: Vec<String> = s.split(';').map(|p| p.to_string()).collect();
        assert_eq!(got, want, "{:?}", s);
    }
}

#[test]
fn split_once_cuts_at_the_first_separator() {
    let (l, r) = split_once(&chars("a=b=c"), '=').unwrap();
    assert_eq!((text(&l), text(&r)), ("a".to_string(), "b=c".to_string()));
    let (l, r) = split_once(&chars("=x"), '=').unwrap();
    assert_eq!((text(&l), text(&r)), ("".to_string(), "x".to_string()));
    let (l, r) = split_once(&chars("x="), '=').unwrap();
    assert_eq!((text(&l), text(&r)), ("x".to_string(), "".to_string()));
    assert!(split_once(&chars("no separator"), '=').is_none());
}

#[test]
fn equals_str_compares_all_characters() {
    assert!(equals_str(&chars("Type"), "Type"));
    assert!(!equals_str(&chars("Type"), "Typo"));
    assert!(!equals_str(&chars("Type"), "Types"));
    assert!(!equals_str(&chars("Types"), "Type"));
    assert!(equals_str(&chars(""), ""));
}

#[test]
fn starts_with_compares_the_prefix() {
    assert!(starts_with(&chars("Name[fr]"), &chars("Name[")));
    assert!(starts_with(&chars("Name["), &chars("Name[")));
    assert!(!starts_with(&chars("Name"), &chars("Name[")));
    assert!(!starts_with(&chars("Game[fr]"), &chars("Name[")));
    assert!(starts_with(&chars("x"), &chars("")));
}

#[test]
fn blank_and_same() {
    assert!(is_blank_str(""));
    assert!(is_blank_str(" \t\u{2009}\n"));
    assert!(!is_blank_str(" . "));
    assert!(same_str("Link", "Link"));
    assert!(!same_str("Link", "link"));
    assert!(!same_str("Link", "Links"));
}

#[test]
fn push_chars_appends() {
    let mut s = String::from("ab");
    push_chars(&mut s, &chars("cé"));
    assert_eq!(s, "abcé");
    push_chars(&mut s, &Vec::new());
    assert_eq!(s, "abcé");
}

#[test]
fn extend_chars_appends() {
    let mut v = chars("ab");
    extend_chars(&mut v, &chars("cd"));
    assert_eq!(text(&v), "abcd");
    extend_chars(&mut v, &Vec::new());
    assert_eq!(text(&v), "abcd");
}
