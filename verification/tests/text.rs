use storage_node::text::{
    clone_strings, contains_chars, find_char, find_field_with, from_chars,
    is_space_char, join2, join3, to_chars,
};

fn chars(s: &str) -> Vec<char> {
    s.chars().collect()
}

#[test]
fn joins() {
    assert_eq!(join2("ab", "cd"), "abcd");
    assert_eq!(join2("", ""), "");
    assert_eq!(join3("a", "/", "b"), "a/b");
}

#[test]
fn strings_are_cloned_in_order() {
    let v = vec![String::from("b"), String::from("a")];
    assert_eq!(clone_strings(&v), v);
}

#[test]
fn characters_of_a_string_and_back() {
    assert_eq!(to_chars("h\u{e9}l\u{3000}o"), vec!['h', '\u{e9}', 'l', '\u{3000}', 'o']);
    assert_eq!(to_chars(""), Vec::<char>::new());
    let v = chars("h\u{e9}llo");
    assert_eq!(from_chars(&v, 1, 4), "\u{e9}ll");
    assert_eq!(from_chars(&v, 2, 2), "");
    assert_eq!(from_chars(&v, 0, 5), "h\u{e9}llo");
}

#[test]
fn white_space_is_what_unicode_says() {
    for code in 0u32..0x11000 {
        if let Some(c) = char::from_u32(code) {
            assert_eq!(is_space_char(c), c.is_whitespace(), "U+{:04X}", code);
        }
    }
}

#[test]
fn finding_characters() {
    let v = chars("a;b;c");
    assert_eq!(find_char(&v, 0, 5, ';'), 1);
    assert_eq!(find_char(&v, 2, 5, ';'), 3);
    assert_eq!(find_char(&v, 4, 5, ';'), 5);
    assert_eq!(find_char(&v, 0, 1, ';'), 1);
    assert_eq!(find_char(&v, 3, 3, ';'), 3);
}

#[test]
fn finding_patterns() {
    let v = chars("xxfilenamexx");
    let pat = chars("filename");
    assert!(contains_chars(&v, 0, 12, &pat));
    assert!(contains_chars(&v, 2, 10, &pat));
    assert!(!contains_chars(&v, 3, 12, &pat));
    assert!(!contains_chars(&v, 0, 9, &pat));
    assert!(contains_chars(&v, 5, 5, &chars("")));
    assert!(!contains_chars(&chars("filenam"), 0, 7, &pat));
    assert!(contains_chars(&chars("fifilename"), 0, 10, &pat));
}

#[test]
fn finding_fields() {
    let pat = chars("filename");
    assert_eq!(find_field_with(&chars("a; filename=x; b"), ';', &pat), Some((2, 13)));
    assert_eq!(find_field_with(&chars("filename"), ';', &pat), Some((0, 8)));
    assert_eq!(find_field_with(&chars("a;b;"), ';', &pat), None);
    assert_eq!(find_field_with(&chars(""), ';', &pat), None);
    assert_eq!(find_field_with(&chars("file;name"), ';', &pat), None);
    assert_eq!(find_field_with(&chars(";;"), ';', &chars("")), Some((0, 0)));
}
