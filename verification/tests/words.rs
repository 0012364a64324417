//! Text: clean-up reports, characters, percent encoding and JSON.

use voxtype::grammar::{apply_edits, apply_report, check, EditConfidence, EditSafety, Rule};
use voxtype::json::{copy_json, parse_json, read_json, render_json, text_array, Items, Json, Members};
use voxtype::percent::{percent_decode, percent_encode, PercentError};
use voxtype::text::{
    byte_offsets, is_control, is_white_space, join_text, lines, lower_unicode_text, parse_number,
    split, split_once, strip_prefix, take_chars, text_first_line, trim, write_hex, write_number,
    write_wide_number,
};

#[test]
fn produces_non_overlapping_reviewable_edits() {
    let source = "  hello   hello , world!!  ";
    let report = check(source);
    assert_eq!(report.suggested, "Hello, world!");
    assert_eq!(apply_report(source, &report), Some(report.suggested.clone()));
    assert!(report.safe_edit_count > 0);
    assert!(report.review_edit_count > 0);
    assert!(report
        .edits
        .windows(2)
        .all(|pair| pair[0].end_byte <= pair[1].start_byte));
}

#[test]
fn preserves_newlines_ellipsis_urls_and_clean_chinese() {
    for source in [
        "这是正常的中文。下一句也正常。",
        "第一行\n第二行",
        "请访问 https://example.com/a?q=1...",
        "C++ 与 Rust 都可以。",
    ] {
        let report = check(source);
        assert_eq!(report.suggested, source);
    }
}

#[test]
fn repeated_word_is_review_only() {
    let report = check("I had had enough.");
    let edit = report
        .edits
        .iter()
        .find(|edit| edit.rule_id == "cleanup.repeated-word")
        .expect("repeated-word edit");
    assert_eq!(edit.safety, EditSafety::Review);
    assert_eq!(report.suggested, "I had enough.");
}

#[test]
fn stale_or_non_boundary_edits_are_rejected() {
    let report = check("hello  world");
    assert!(apply_edits("hello changed", &report.edits).is_none());
    assert!(apply_report("jello  world", &report).is_none());
    let mut invalid = report.edits;
    invalid[0].start_byte = 1;
    assert!(apply_edits("你好  world", &invalid).is_none());
}

#[test]
fn a_clean_text_needs_no_edit() {
    let report = check("Hello, world!");
    assert!(report.is_clean());
    assert!(report.edits.is_empty());
    assert_eq!(report.original_bytes, 13);
    assert_eq!(report.original_characters, 13);
    assert_eq!(report.schema, 1);
    let empty = check("");
    assert!(empty.clean);
    assert_eq!(empty.original_fingerprint, "fnv1a64:cbf29ce484222325");
}

#[test]
fn a_kept_text_is_clean_and_edits_are_in_order() {
    for source in ["hello.", "a  b", "Fine.", "C++ 与 Rust 都可以。", " x", "a a a", "好！！", ""] {
        let report = check(source);
        assert_eq!(report.is_clean(), report.suggested == source);
        assert_eq!(report.is_clean(), report.edits.is_empty());
        assert_eq!(report.safe_edit_count + report.review_edit_count, report.edits.len());
        let mut cursor = 0;
        for edit in &report.edits {
            assert!(cursor <= edit.start_byte && edit.start_byte < edit.end_byte);
            assert_eq!(&source[edit.start_byte..edit.end_byte], edit.original);
            cursor = edit.end_byte;
        }
    }
}

#[test]
fn rules_have_their_own_names() {
    assert_eq!(Rule::RepeatedWord.rule_id(), "cleanup.repeated-word");
    assert_eq!(Rule::RepeatedWord.safety(), EditSafety::Review);
    assert_eq!(Rule::LeadingSpace.safety(), EditSafety::Safe);
    assert_eq!(Rule::LeadingSpace.confidence(), EditConfidence::High);
}

#[test]
fn white_space_and_control_agree_with_unicode() {
    for code in 0..=0x10_FFFF_u32 {
        if let Some(c) = char::from_u32(code) {
            assert_eq!(is_white_space(c), c.is_whitespace(), "{code:x}");
            assert_eq!(is_control(c), c.is_control(), "{code:x}");
        }
    }
}

#[test]
fn texts_are_cut_as_asked() {
    assert_eq!(trim("\u{3000} a b \n"), "a b");
    assert_eq!(take_chars("前文内容", 2), "前文");
    assert_eq!(split("a,,b", ','), ["a", "", "b"]);
    assert_eq!(split_once("a=b=c", '='), Some(("a", "b=c")));
    assert_eq!(split_once("abc", '='), None);
    assert_eq!(strip_prefix("wss://x", "wss://"), Some("x"));
    assert_eq!(text_first_line("one\ntwo"), "one");
    assert_eq!(lines("one\r\ntwo\n\nthree"), ["one", "two", "", "three"]);
    assert_eq!(lines("one\n"), ["one"]);
    assert!(lines("").is_empty());
    assert_eq!(join_text(&vec!["a".to_owned(), "b".to_owned()], ", "), "a, b");
    assert_eq!(lower_unicode_text("ÀB"), "àb");
    assert_eq!(byte_offsets("a中b"), [0, 1, 4, 5]);
}

#[test]
fn numbers_read_back_from_their_text() {
    for n in [0, 9, 10, 4_294_967_296, u64::MAX] {
        assert_eq!(write_number(n), n.to_string());
        assert_eq!(parse_number(&write_number(n), u64::MAX), Some(n));
    }
    assert_eq!(write_wide_number(u128::MAX), u128::MAX.to_string());
    assert_eq!(parse_number("18446744073709551616", u64::MAX), None);
    assert_eq!(parse_number("300", 255), None);
    assert_eq!(parse_number("", 255), None);
    assert_eq!(parse_number("-1", 255), None);
    assert_eq!(write_hex(0xab, 4), "00ab");
}

#[test]
fn percent_encoding_reads_back() {
    assert_eq!(percent_encode("zh CN/中"), "zh%20CN%2F%E4%B8%AD");
    assert_eq!(percent_decode("zh%20CN%2F%E4%B8%AD"), Ok("zh CN/中".to_owned()));
    assert_eq!(percent_decode("%2"), Err(PercentError::InvalidEncoding));
    assert_eq!(percent_decode("%zz"), Err(PercentError::InvalidEncoding));
    assert_eq!(percent_decode("%ff"), Err(PercentError::NotUtf8));
    assert_ne!(PercentError::InvalidEncoding.message(), PercentError::NotUtf8.message());
}

#[test]
fn documents_are_read_and_written() {
    let json = parse_json(br#"{"b":[1,-2,1.5,true,null],"a":"x"}"#).expect("document");
    let list = json.get("b").expect("list");
    assert_eq!(list.at(0).and_then(Json::as_unsigned), Some(1));
    assert_eq!(list.at(1).and_then(Json::as_unsigned), None);
    assert_eq!(list.at(3).and_then(Json::as_bool), Some(true));
    assert!(list.at(5).is_none());
    assert_eq!(json.get("a").and_then(Json::as_text), Some("x"));
    assert!(json.is_object());
    assert_eq!(render_json(&json), r#"{"a":"x","b":[1,-2,1.5,true,null]}"#);
    assert_eq!(copy_json(&json), json);
    assert!(parse_json(b"{").is_none());
    assert!(read_json(b"{").is_err());
}

#[test]
fn documents_are_built_member_by_member() {
    let mut members = Members::new();
    members.put_text("name", "a\"b");
    members.put_number("count", 3);
    members.put_truth("yes", true);
    members.put_optional_number("none", None);
    members.put_optional_text("some", Some("t"));
    let mut items = Items::new();
    items.put(Json::Null);
    members.put("items", items.array());
    members.put("texts", text_array(&vec!["u".to_owned()]));
    assert_eq!(
        render_json(&members.object()),
        r#"{"count":3,"items":[null],"name":"a\"b","none":null,"some":"t","texts":["u"],"yes":true}"#
    );
}
