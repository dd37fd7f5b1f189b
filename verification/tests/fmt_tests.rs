use asset_versions::fmt::{merge_and_render, render_json, render_text, u64_to_dec};
use asset_versions::store::{Version, Versions};

fn rec(version: u32, date: &str) -> Version {
    Version { version, date: String::from(date) }
}

#[test]
fn decimal_rendering_exact() {
    assert_eq!(u64_to_dec(0), "0");
    assert_eq!(u64_to_dec(7), "7");
    assert_eq!(u64_to_dec(10), "10");
    assert_eq!(u64_to_dec(1234567890123456789), "1234567890123456789");
    assert_eq!(u64_to_dec(u64::MAX), "18446744073709551615");
}

#[test]
fn json_of_empty_collection() {
    let c = Versions::new(7);
    assert_eq!(render_json(&c), "{\"assetid\":7,\"versions\":[]}");
}

#[test]
fn json_of_three_records_exact() {
    let mut c = Versions::new(42);
    c.insert_record(rec(1, "T1"));
    c.insert_record(rec(2, "T2"));
    c.insert_record(rec(3, "T3"));
    assert_eq!(
        render_json(&c),
        "{\"assetid\":42,\"versions\":[{\"version\":1,\"date\":\"T1\"},{\"version\":2,\"date\":\"T2\"},{\"version\":3,\"date\":\"T3\"}]}"
    );
}

#[test]
fn json_escapes_special_characters() {
    let mut c = Versions::new(1);
    c.insert_record(rec(1, "a\"b\\c\nd"));
    assert_eq!(
        render_json(&c),
        "{\"assetid\":1,\"versions\":[{\"version\":1,\"date\":\"a\\\"b\\\\c\\u000ad\"}]}"
    );
}

#[test]
fn text_of_empty_collection() {
    let c = Versions::new(7);
    assert_eq!(render_text(&c), "Versions of: 7\n");
}

#[test]
fn text_listing_exact() {
    let mut c = Versions::new(42);
    c.insert_record(rec(1, "T1"));
    c.insert_record(rec(2, "T2"));
    assert_eq!(
        render_text(&c),
        "Versions of: 42\nVersion: 1, Date: T1\nVersion: 2, Date: T2\n"
    );
}

#[test]
fn persisting_twice_is_byte_identical() {
    let mut c = Versions::new(8);
    c.insert_record(rec(1, "Mon, 01 Jan 2001 00:00:00 GMT"));
    c.insert_record(rec(2, "Tue, 02 Jan 2001 00:00:00 GMT"));
    let json_a = render_json(&c);
    let json_b = render_json(&c);
    assert_eq!(json_a.as_bytes(), json_b.as_bytes());
    let text_a = render_text(&c);
    let text_b = render_text(&c);
    assert_eq!(text_a.as_bytes(), text_b.as_bytes());
    // a fresh snapshot renders to the same bytes as well
    let snap = c.snapshot();
    assert_eq!(render_json(&snap).as_bytes(), json_a.as_bytes());
    assert_eq!(render_text(&snap).as_bytes(), text_a.as_bytes());
}

#[test]
fn merge_and_render_persists_the_updated_state() {
    let mut c = Versions::new(42);
    let (json1, text1) = merge_and_render(&mut c, 2, String::from("T2"));
    assert_eq!(json1, "{\"assetid\":42,\"versions\":[{\"version\":2,\"date\":\"T2\"}]}");
    assert_eq!(text1, "Versions of: 42\nVersion: 2, Date: T2\n");
    let (json2, text2) = merge_and_render(&mut c, 1, String::from("T1"));
    assert_eq!(
        json2,
        "{\"assetid\":42,\"versions\":[{\"version\":1,\"date\":\"T1\"},{\"version\":2,\"date\":\"T2\"}]}"
    );
    assert_eq!(text2, "Versions of: 42\nVersion: 1, Date: T1\nVersion: 2, Date: T2\n");
    assert_eq!(render_json(&c), json2);
}
