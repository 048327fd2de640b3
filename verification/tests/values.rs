use drift_sdk::document;
use drift_sdk::json::{self, Json, Num, Object};
use drift_sdk::table::Table;

fn read(s: &str) -> Json {
    document::parse(s).unwrap()
}

#[test]
fn values_are_read_and_written() {
    let s = "{\"a\":[1,-2,true,null,\"x\\ny\"],\"b\":{\"c\":1.5}}";
    assert_eq!(document::render(read(s)), s);
}

#[test]
fn fields_are_written_in_order() {
    assert_eq!(document::render(read("{\"b\":1,\"a\":2,\"b\":3}")), "{\"a\":2,\"b\":3}");
}

#[test]
fn text_that_is_not_json_gives_the_error() {
    assert_eq!(
        document::parse("{\"a\":}").unwrap_err(),
        "expected value at line 1 column 6"
    );
}

#[test]
fn documents_are_turned_into_values_and_back() {
    let v: serde_json::Value =
        serde_json::from_str("{\"n\":18446744073709551615,\"m\":-9223372036854775808,\"f\":0.5,\"l\":[[]]}").unwrap();
    let j = document::from_document(v.clone());
    assert_eq!(j.get("n").unwrap().as_u64(), Some(u64::MAX));
    assert_eq!(j.get("n").unwrap().as_i64(), None);
    assert_eq!(j.get("m").unwrap().as_i64(), Some(i64::MIN));
    assert_eq!(j.get("f").unwrap().as_i64(), None);
    assert_eq!(j.get("f").unwrap().as_u64(), None);
    assert_eq!(document::into_document(j), v);
}

#[test]
fn numbers_keep_their_value() {
    assert_eq!(Json::signed(5), Json::unsigned(5));
    assert_eq!(Json::signed(-5).as_u64(), None);
    assert_eq!(Json::signed(-5).as_i64(), Some(-5));
    assert_eq!(Json::Number(Num::Signed(7)).as_u64(), Some(7));
    assert_eq!(document::render(Json::unsigned(u64::MAX)), "18446744073709551615");
    assert_eq!(document::render(Json::signed(i64::MIN)), "-9223372036854775808");
}

#[test]
fn real_numbers_are_carried() {
    let v = read("[1e3,0.25]");
    assert_eq!(document::render(v.clone()), "[1000.0,0.25]");
    assert!(v.as_array().unwrap()[0].as_u64().is_none());
}

#[test]
fn a_copy_means_the_same() {
    let v = read("{\"a\":[{\"b\":1.5},2]}");
    assert_eq!(v.clone(), v);
}

#[test]
fn fields_are_looked_up() {
    let v = read("{\"s\":\"x\",\"t\":true,\"n\":1}");
    assert_eq!(v.text_field("s").unwrap(), "x");
    assert!(v.text_field("n").is_none());
    assert!(v.text_field("z").is_none());
    assert_eq!(v.get("t").unwrap().as_bool(), Some(true));
    assert_eq!(v.get("s").unwrap().as_bool(), None);
    assert!(Json::Null.get("s").is_none());
    assert!(v.as_array().is_none());
}

#[test]
fn answers_are_read_with_defaults() {
    let v = Some(read("{\"s\":\"x\",\"n\":3,\"m\":-3}"));
    assert_eq!(json::take_text(&v, "s"), "x");
    assert_eq!(json::take_text(&v, "n"), "");
    assert_eq!(json::take_text(&None, "s"), "");
    assert_eq!(json::take_count(&v, "n"), 3);
    assert_eq!(json::take_count(&v, "m"), 0);
    assert_eq!(json::take_count(&None, "n"), 0);
}

#[test]
fn texts_are_picked_out_of_a_list() {
    let v = read("[\"a\",1,\"b\",null]");
    assert_eq!(json::take_texts(v.as_array().unwrap()), vec!["a", "b"]);
}

#[test]
fn a_field_replaces_one_of_its_name() {
    let mut o: Object = Table::empty();
    o.set("k", Json::Bool(true));
    o.set("k", Json::text("v"));
    assert_eq!(o.lookup("k"), Some(&Json::text("v")));
    assert_eq!(o.lookup("l"), None);
}

#[test]
fn written_text_is_one_line() {
    let s = document::render(Json::text("a\nb\r\n"));
    assert_eq!(s, "\"a\\nb\\r\\n\"");
    assert!(!s.contains('\n'));
}
