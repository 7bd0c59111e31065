use firelite::base64_text::{bytes_of_standard, bytes_of_url_safe};
use firelite::calendar::{civil_from_days, format_timestamp_ms};
use firelite::checksum::{crc32c, crc32c_base64};
use firelite::decimal::{decimal_text, only_digits, padded_decimal, parse_u64, parse_usize};
use firelite::digest::{digits_of_digest, hash_password, to_hex, verification_code};
use firelite::fresh::Draw;
use firelite::json::{find_field, put_field, Json};
use firelite::pair_map::PairMap;
use firelite::percent::{has_whole_escapes, percent_decode, percent_encode};
use firelite::text::{lines, replace, split, split_once, strip_prefix, strip_suffix};
use firelite::text_map::TextMap;
use firelite::trim::{to_ascii_lowercase, trim, trim_char, trim_end_char};

#[test]
fn base64_is_decoded() {
    assert_eq!(bytes_of_standard("aGVsbG8="), Some(b"hello".to_vec()));
    assert_eq!(bytes_of_standard("aGVsbG8"), None);
    assert_eq!(bytes_of_standard("+/8="), Some(vec![0xfb, 0xff]));
    assert_eq!(bytes_of_url_safe("aGVsbG8"), Some(b"hello".to_vec()));
    assert_eq!(bytes_of_url_safe("-_8"), Some(vec![0xfb, 0xff]));
    assert_eq!(bytes_of_url_safe("+/8"), None);
    assert_eq!(bytes_of_url_safe("aGVsbG8="), None);
}

#[test]
fn days_have_dates() {
    assert_eq!(civil_from_days(0), (1970, 1, 1));
    assert_eq!(civil_from_days(-1), (1969, 12, 31));
    assert_eq!(civil_from_days(11_016), (2000, 2, 29));
    assert_eq!(civil_from_days(19_782), (2024, 2, 29));
    assert_eq!(civil_from_days(19_783), (2024, 3, 1));
}

#[test]
fn timestamps_are_written_out() {
    assert_eq!(format_timestamp_ms(0), "1970-01-01T00:00:00.000Z");
    assert_eq!(format_timestamp_ms(1_709_210_096_789), "2024-02-29T12:34:56.789Z");
    assert_eq!(format_timestamp_ms(4_102_444_800_000), "2100-01-01T00:00:00.000Z");
}

#[test]
fn checksums_match_known_values() {
    assert_eq!(crc32c(b"123456789"), 0xE306_9283);
    assert_eq!(crc32c(b""), 0);
    assert_eq!(crc32c_base64(b"123456789"), "4waSgw==");
    assert_eq!(crc32c_base64(b""), "AAAAAA==");
}

#[test]
fn digests_are_written_out() {
    assert_eq!(to_hex(&vec![0x00, 0xff, 0x1a]), "00ff1a");
    assert_eq!(
        hash_password("abc"),
        "ba7816bf8f01cfea414140de5dae2223b00361a396177a9cb410ff61f20015ad"
    );
    assert_eq!(digits_of_digest(&vec![0, 0, 0, 7, 9, 9]), "000007");
    assert_eq!(digits_of_digest(&vec![0xff, 0xff, 0xff, 0xff]), "967295");
    let code = verification_code("session");
    assert_eq!(code.len(), 6);
    assert!(only_digits(&code));
    assert_eq!(code, verification_code("session"));
    assert_ne!(code, verification_code("another session"));
}

#[test]
fn random_ids_differ() {
    let mut draw = Draw::fresh(7, 2);
    draw.draw_another();
    assert_eq!(draw.now_ms, 7);
    assert_eq!(draw.ids.len(), 3);
    for id in &draw.ids {
        assert_eq!(id.len(), 36);
        assert_eq!(id.chars().filter(|c| *c == '-').count(), 4);
    }
    assert_ne!(draw.ids[0], draw.ids[1]);
    assert_ne!(draw.ids[1], draw.ids[2]);
}

#[test]
fn numbers_are_read_back() {
    for n in [0, 7, 10, 1_700_000_000_123, u64::MAX] {
        assert_eq!(decimal_text(n), n.to_string());
        assert_eq!(parse_u64(&decimal_text(n)), Some(n));
    }
    assert_eq!(padded_decimal(7, 3), "007");
    assert_eq!(padded_decimal(1234, 3), "1234");
    assert_eq!(parse_u64("+5"), Some(5));
    assert_eq!(parse_u64(""), None);
    assert_eq!(parse_u64("+"), None);
    assert_eq!(parse_u64("-1"), None);
    assert_eq!(parse_u64("18446744073709551616"), None);
    assert_eq!(parse_usize("12"), Some(12));
    assert_eq!(parse_usize("1 2"), None);
}

#[test]
fn percent_signs_round_trip() {
    assert_eq!(percent_encode("a b/c@d"), "a%20b%2Fc%40d");
    assert_eq!(percent_encode("A-z_0.~"), "A-z_0.~");
    for text in ["", "plain", "100% sure?", "\u{e9}t\u{e9} & more"] {
        let encoded = percent_encode(text);
        assert!(has_whole_escapes(&encoded));
        assert_eq!(percent_decode(&encoded), text);
    }
    assert_eq!(percent_decode("a+b%40c"), "a b@c");
    assert_eq!(percent_decode("%zz"), "%zz");
    assert_eq!(percent_decode("%ff"), "\u{fffd}");
}

#[test]
fn json_is_read_and_written() {
    let value = Json::parse(br#" {"b":[true,null,1.5],"a":"x","n":12} "#).unwrap();
    assert_eq!(value.render(), r#"{"a":"x","b":[true,null,1.5],"n":12}"#);
    assert_eq!(
        value.render_pretty(),
        "{\n  \"a\": \"x\",\n  \"b\": [\n    true,\n    null,\n    1.5\n  ],\n  \"n\": 12\n}"
    );
    assert_eq!(value.text_in("a"), Some("x"));
    assert_eq!(value.unsigned_in("n"), Some(12));
    assert_eq!(value.text_in("n"), None);
    assert!(value.get("missing").is_none());
    assert!(Json::parse(b"{").is_none());
    assert!(Json::parse(b"\xff").is_none());
    assert_eq!(Json::unsigned(u64::MAX).render(), "18446744073709551615");
    assert_eq!(Json::text("q\"\n").render(), "\"q\\\"\\n\"");
}

#[test]
fn a_json_text_in_a_marked_object_is_read_in_its_place() {
    let value = Json::parse(br#"{"$serde_json::private::RawValue":"[1]"}"#).unwrap();
    assert_eq!(value.render(), "[1]");
    let value = Json::parse(br#"{"a":1,"$serde_json::private::RawValue":"[1]"}"#).unwrap();
    assert_eq!(value.text_in("$serde_json::private::RawValue"), Some("[1]"));
    assert!(Json::parse(value.render().as_bytes()).is_none());
}

#[test]
fn the_last_of_two_equal_fields_stays() {
    let value = Json::parse(br#"{"a":1,"a":2}"#).unwrap();
    assert_eq!(value.unsigned_in("a"), Some(2));
    assert_eq!(value.render(), r#"{"a":2}"#);
}

#[test]
fn fields_are_put_in_order() {
    let mut fields = Vec::new();
    put_field(&mut fields, "b", Json::unsigned(1));
    put_field(&mut fields, "a", Json::unsigned(2));
    put_field(&mut fields, "b", Json::unsigned(3));
    assert_eq!(find_field(&fields, "b").and_then(|v| v.as_u64()), Some(3));
    assert_eq!(Json::Object(fields).render(), r#"{"a":2,"b":3}"#);
}

#[test]
fn text_maps_keep_their_keys_in_order() {
    let mut map: TextMap<String> = TextMap::new();
    map.insert("b".to_string(), "1".to_string());
    map.insert("a".to_string(), "2".to_string());
    map.insert("ab".to_string(), "3".to_string());
    map.insert("b".to_string(), "4".to_string());
    assert_eq!(map.len(), 3);
    let keys: Vec<&str> = (0..map.len()).map(|i| map.key_at(i).as_str()).collect();
    assert_eq!(keys, vec!["a", "ab", "b"]);
    assert_eq!(map.get("b").map(|v| v.as_str()), Some("4"));
    assert_eq!(map.remove("b"), Some("4".to_string()));
    assert_eq!(map.remove("b"), None);
    assert!(!map.contains_key("b"));
}

#[test]
fn pair_maps_tell_their_pairs_apart() {
    let mut map = PairMap::new();
    map.insert("google.com".to_string(), "1".to_string(), "alice".to_string());
    map.insert("google.com".to_string(), "2".to_string(), "bob".to_string());
    assert_eq!(map.get("google.com", "1").map(|v| v.as_str()), Some("alice"));
    assert_eq!(map.get("google.com", "3"), None);
    map.remove("google.com", "1");
    assert_eq!(map.get("google.com", "1"), None);
    assert_eq!(map.get("google.com", "2").map(|v| v.as_str()), Some("bob"));
}

#[test]
fn texts_are_cut() {
    assert_eq!(split_once("a: b: c", ": "), Some(("a", "b: c")));
    assert_eq!(split_once("abc", ": "), None);
    assert_eq!(split("a,,b", ","), vec!["a", "", "b"]);
    assert_eq!(split("", ","), vec![""]);
    assert_eq!(lines("a\r\nb\n\nc"), vec!["a", "b", "", "c"]);
    assert_eq!(replace("a--b-", "-", "+"), "a++b+");
    assert_eq!(strip_prefix("/path", "/"), Some("path"));
    assert_eq!(strip_prefix("path", "/"), None);
    assert_eq!(strip_suffix("path:x", ":x"), Some("path"));
}

#[test]
fn texts_are_trimmed() {
    assert_eq!(trim(" \t a b\u{a0}\n"), "a b");
    assert_eq!(trim_char("\"a\"\"", '"'), "a");
    assert_eq!(trim_end_char("a,,", ','), "a");
    assert_eq!(to_ascii_lowercase("AbC-\u{c9}"), "abc-\u{c9}");
}
