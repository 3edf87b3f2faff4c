//! Paths and the pieces of text that reports are made of.

use yaam::cli::encoding::{encoded, Params};
use yaam::path::{first_under, reduced, OsPath};
use yaam::text::{
    decimal_text, line_of, lower_text, signed_text, sorted_texts, split_at_first, trimmed,
};

fn path(text: &str) -> OsPath {
    OsPath::from_text(text)
}

fn reduction(base: &str, text: &str) -> String {
    reduced(&path(base), &path(text)).display()
}

#[test]
fn a_path_is_reduced_by_its_spelling_alone() {
    assert_eq!(reduction("/repo", "records/a.md"), "/repo/records/a.md");
    assert_eq!(reduction("/repo", "records/../keystore/x"), "/repo/keystore/x");
    assert_eq!(reduction("/repo", "/elsewhere/x"), "/elsewhere/x");
    assert_eq!(reduction("/", "/a//b/./c/"), "/a/b/c");
    assert_eq!(reduction("/", "../../a"), "/a");
    assert_eq!(reduction("rel", "../../x"), "x");
    assert_eq!(reduction("/repo", ".."), "/");
}

#[test]
fn a_reduced_path_reduces_to_itself() {
    for text in ["records/../keystore/x", "/a//b/./c/", "../../a", "a", "/"] {
        let once = reduced(&path("/repo"), &path(text));
        assert!(reduced(&path("/repo"), &once).is_same(&once), "{text}");
    }
}

#[test]
fn going_up_undoes_going_down() {
    assert_eq!(reduction("/repo/records", "2026/.."), "/repo/records");
    assert_eq!(reduction("/repo/records", "2026/01/../.."), "/repo/records");
}

#[test]
fn joining_adds_one_separator_and_an_absolute_name_replaces() {
    assert_eq!(path("/a").join(&path("b")).display(), "/a/b");
    assert_eq!(path("/a/").join(&path("b")).display(), "/a/b");
    assert_eq!(path("").join(&path("b")).display(), "b");
    assert_eq!(path("/a").join(&path("/b")).display(), "/b");
}

#[test]
fn one_path_is_inside_another_by_whole_names() {
    assert!(path("/store/keystore/x").starts_with(&path("/store/keystore")));
    assert!(path("/store/keystore").starts_with(&path("/store/keystore")));
    assert!(!path("/store/keystores").starts_with(&path("/store/keystore")));
    assert!(!path("/store").starts_with(&path("/store/keystore")));
    assert_eq!(
        first_under(&path("/store"), &path("/store/records/2026/a.md")),
        Some("records".to_owned())
    );
    assert_eq!(first_under(&path("/store"), &path("/store")), None);
    assert_eq!(first_under(&path("/store"), &path("/other/records")), None);
}

/// As the standard library's own paths compare, which is what each of these is held to.
#[test]
fn a_leading_dot_of_a_relative_path_is_a_component_and_no_other_dot_is() {
    let spellings = ["a", "./a", "a/.", "a/./b", "a/b", "./a/b", ".", "", "/a", "/./a", "././a", ".a", "..", "./.."];
    for one in spellings {
        for other in spellings {
            let (mine, theirs) = (std::path::Path::new(one), std::path::Path::new(other));
            assert_eq!(path(one).is_same(&path(other)), mine == theirs, "{one:?} {other:?}");
            assert_eq!(
                path(one).starts_with(&path(other)),
                mine.starts_with(theirs),
                "{one:?} {other:?}"
            );
            let below = mine
                .strip_prefix(theirs)
                .ok()
                .and_then(|rest| rest.components().next())
                .map(|first| first.as_os_str().to_string_lossy().into_owned());
            assert_eq!(first_under(&path(other), &path(one)), below, "{one:?} {other:?}");
        }
    }
    assert_eq!(first_under(&path("a"), &path("./a/b")), None);
    assert_eq!(reduction("/repo", "./a/b"), "/repo/a/b");
    assert_eq!(reduction("", "./a"), "a");
}

#[test]
fn bytes_that_are_no_text_are_displayed_with_a_replacement() {
    let odd = OsPath { bytes: vec![b'/', b'a', 0xff, b'b'] };
    assert_eq!(odd.display(), "/a\u{fffd}b");
}

#[test]
fn numbers_are_written_as_the_language_writes_them() {
    assert_eq!(decimal_text(0), "0");
    assert_eq!(decimal_text(u64::MAX), u64::MAX.to_string());
    assert_eq!(signed_text(-1), "-1");
    assert_eq!(signed_text(i64::MIN), i64::MIN.to_string());
    assert_eq!(signed_text(i64::MAX), i64::MAX.to_string());
}

#[test]
fn text_is_trimmed_lowered_and_split_as_the_language_does_it() {
    for text in ["", "  a b \n", "\u{2003}x\u{a0}", "\u{85}y\t", "plain"] {
        assert_eq!(trimmed(text), text.trim());
    }
    assert_eq!(lower_text("Transfer-ENCODING: \u{c4}"), "transfer-encoding: \u{c4}");
    assert_eq!(split_at_first("a=b=c", '='), Some(("a".to_owned(), "b=c".to_owned())));
    assert_eq!(split_at_first("abc", '='), None);
}

#[test]
fn a_line_holds_words_and_single_spaces() {
    assert_eq!(line_of(" a\n\tb \r\n c "), "a b c");
    assert_eq!(line_of("\n \n"), "");
}

#[test]
fn sorting_keeps_every_text_and_orders_them_by_character() {
    let list: Vec<String> =
        ["writer", "auditor", "b", "a", "writer", "", "\u{e9}", "z"].iter().map(|s| s.to_string()).collect();
    let mut expected = list.clone();
    expected.sort();
    assert_eq!(sorted_texts(&list), expected);
}

#[test]
fn encoding_can_be_undone_byte_by_byte() {
    let value = "a b/\u{e9}%#";
    let out = encoded(value);
    assert_eq!(out, "a%20b%2F%C3%A9%25%23");
    let mut bytes: Vec<u8> = Vec::new();
    let written = out.as_bytes();
    let mut i = 0;
    while i < written.len() {
        if written[i] == b'%' {
            bytes.push(u8::from_str_radix(&out[i + 1..i + 3], 16).unwrap());
            i += 3;
        } else {
            bytes.push(written[i]);
            i += 1;
        }
    }
    assert_eq!(String::from_utf8(bytes).unwrap(), value);
}

#[test]
fn parameters_stand_in_the_order_they_were_added() {
    let mut params = Params::new();
    params.add("q", "a&b");
    params.optional("limit", None);
    params.optional("agent", Some("x=y".to_owned()));
    assert_eq!(params.query(), "?q=a%26b&agent=x%3Dy");
}
