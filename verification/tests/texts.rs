use drift_sdk::percent::{percent_decode, percent_encode};
use drift_sdk::query::{decode_query, parse_query};
use drift_sdk::document;
use drift_sdk::json::Json;
use drift_sdk::table::Table;
use drift_sdk::text;

fn pair(a: &str, b: &str) -> Option<(String, String)> {
    Some((a.to_string(), b.to_string()))
}

#[test]
fn unreserved_characters_stay() {
    let s = "AZaz09-_.~";
    assert_eq!(percent_encode(s), s);
}

#[test]
fn other_bytes_are_written_in_hex() {
    assert_eq!(percent_encode("a b/c?d&e=f"), "a%20b%2Fc%3Fd%26e%3Df");
    assert_eq!(percent_encode("é"), "%C3%A9");
    assert_eq!(percent_encode("100%"), "100%25");
    assert_eq!(percent_encode(""), "");
}

#[test]
fn escapes_are_decoded() {
    assert_eq!(percent_decode("a%20b"), "a b");
    assert_eq!(percent_decode("a+b"), "a b");
    assert_eq!(percent_decode("%c3%A9"), "é");
    assert_eq!(percent_decode("%41"), "A");
}

#[test]
fn broken_escapes_are_kept() {
    assert_eq!(percent_decode("%"), "%");
    assert_eq!(percent_decode("%4"), "%4");
    assert_eq!(percent_decode("%zz1"), "%zz1");
    assert_eq!(percent_decode("100%"), "100%");
}

#[test]
fn a_sign_before_a_digit_is_read() {
    assert_eq!(percent_decode("%+4"), "\u{4}");
}

#[test]
fn bytes_that_are_no_text_are_replaced() {
    assert_eq!(percent_decode("%FF"), "\u{fffd}");
    assert_eq!(percent_decode("a%C3"), "a\u{fffd}");
}

#[test]
fn an_escape_before_half_a_character_gives_a_zero_byte() {
    assert_eq!(percent_decode("%aé"), "\u{0}\u{fffd}");
}

#[test]
fn decoding_gives_back_what_was_encoded() {
    for s in ["", "plain", "a b+c", "100%", "ünï/cödé?&=", "日本語", "%41"] {
        assert_eq!(percent_decode(&percent_encode(s)), s);
    }
}

#[test]
fn parameters_are_read_as_they_are_written() {
    let q = parse_query("cache/get?key=a%20b&x=1&flag&x=2&k=v=w&=e");
    assert_eq!(q.get("key").unwrap(), "a%20b");
    assert_eq!(q.get("x").unwrap(), "2");
    assert_eq!(q.get("k").unwrap(), "v=w");
    assert_eq!(q.get("").unwrap(), "e");
    assert!(q.get("flag").is_none());
    assert_eq!(q.len(), 4);
}

#[test]
fn a_path_without_a_query_has_no_parameters() {
    assert_eq!(parse_query("cache/get").len(), 0);
    assert_eq!(parse_query("cache/get?").len(), 0);
}

#[test]
fn a_second_question_mark_belongs_to_the_query() {
    assert_eq!(parse_query("p?a=b?c").get("a").unwrap(), "b?c");
}

#[test]
fn a_query_is_decoded_for_a_handler() {
    let q = decode_query("name=J%C3%B6rg+M&&flag&a%3Db=c%26d&name=x");
    assert_eq!(
        document::render(Json::Object(q)),
        "{\"a=b\":\"c&d\",\"flag\":\"\",\"name\":\"x\"}"
    );
    assert_eq!(document::render(Json::Object(decode_query(""))), "{}");
}

#[test]
fn texts_are_split_once() {
    assert_eq!(text::split_once("a=b=c", '='), pair("a", "b=c"));
    assert_eq!(text::split_once("abc", '='), None);
    assert_eq!(text::split_once_at_two("Key: a: b", ':', ' '), pair("Key", "a: b"));
    assert_eq!(text::split_once_at_two("Key:a", ':', ' '), None);
    assert_eq!(text::split_once_at_two("a:", ':', ' '), None);
    assert_eq!(text::split_once_at_two(": ", ':', ' '), pair("", ""));
}

#[test]
fn texts_are_split_at_every_separator() {
    assert_eq!(text::split_all("a&&b", '&'), vec!["a", "", "b"]);
    assert_eq!(text::split_all("", '&'), vec![""]);
    assert_eq!(text::head_of("a?b?c", '?'), "a");
    assert_eq!(text::head_of("abc", '?'), "abc");
}

#[test]
fn white_space_is_trimmed() {
    assert_eq!(text::trim(" \t\r\na b\u{a0}\u{2003}\n"), "a b");
    assert_eq!(text::trim(" \n"), "");
    assert_eq!(text::trim_end_of("http://a//", '/'), "http://a");
    assert_eq!(text::trim_start_of("//a/", '/'), "a/");
}

#[test]
fn numbers_are_written_and_read() {
    assert_eq!(text::decimal_of(0), "0");
    assert_eq!(text::decimal_of(18446744073709551616), "18446744073709551616");
    assert_eq!(text::read_unsigned("+080", 65535), Some(80));
    assert_eq!(text::read_unsigned("65535", 65535), Some(65535));
    assert_eq!(text::read_unsigned("65536", 65535), None);
    assert_eq!(text::read_unsigned("18446744073709551615", u64::MAX), Some(u64::MAX));
    assert_eq!(text::read_unsigned("18446744073709551616", u64::MAX), None);
    assert_eq!(text::read_unsigned("", 9), None);
    assert_eq!(text::read_unsigned("+", 9), None);
    assert_eq!(text::read_unsigned("-1", 9), None);
    assert_eq!(text::read_unsigned("1 ", 9), None);
}

#[test]
fn case_is_ignored_for_ascii_letters_alone() {
    assert!(text::same_but_for_case("Content-Length", "content-length"));
    assert!(!text::same_but_for_case("É", "é"));
    assert!(!text::same_but_for_case("a", "ab"));
}

#[test]
fn a_table_walks_its_keys_in_order() {
    let mut t: Table<u8> = Table::new();
    for (k, v) in [("b", 1u8), ("a", 2), ("é", 3), ("Z", 4), ("a", 5), ("aa", 6)] {
        t.insert(k.to_string(), v);
    }
    assert_eq!(t.len(), 5);
    assert_eq!(t.get("a"), Some(&5));
    assert_eq!(t.remove("b"), Some(1));
    assert_eq!(t.remove("b"), None);
    assert!(!t.contains_key("b"));
    let keys: Vec<String> = t.into_entries().into_iter().map(|e| e.0).collect();
    assert_eq!(keys, vec!["Z", "a", "aa", "é"]);
}
