use keeper_secrets::utils::{
    base64_to_bytes, bytes_to_base64, json_to_dict, url_safe_str_to_bytes, EncodingError,
};

#[test]
fn url_safe_decode_takes_padding_or_none() {
    assert_eq!(url_safe_str_to_bytes("YWJjZA"), Ok(b"abcd".to_vec()));
    assert_eq!(url_safe_str_to_bytes("YWJjZA=="), Ok(b"abcd".to_vec()));
    assert_eq!(url_safe_str_to_bytes("YWJjZA"), url_safe_str_to_bytes("YWJjZA=="));
}

#[test]
fn url_safe_decode_of_each_remainder() {
    assert_eq!(url_safe_str_to_bytes(""), Ok(vec![]));
    assert_eq!(url_safe_str_to_bytes("YWJj"), Ok(b"abc".to_vec()));
    assert_eq!(url_safe_str_to_bytes("YWJjZGU"), Ok(b"abcde".to_vec()));
    assert_eq!(url_safe_str_to_bytes("YWJjZGU="), Ok(b"abcde".to_vec()));
    assert_eq!(url_safe_str_to_bytes("YQ"), Ok(b"a".to_vec()));
}

#[test]
fn url_safe_decode_refuses_a_length_of_one_modulo_four() {
    assert_eq!(url_safe_str_to_bytes("Y"), Err(EncodingError));
    assert_eq!(url_safe_str_to_bytes("YWJjZ"), Err(EncodingError));
    assert_eq!(url_safe_str_to_bytes("YWJjZGVmZ"), Err(EncodingError));
}

#[test]
fn url_safe_decode_uses_the_url_safe_alphabet() {
    assert_eq!(url_safe_str_to_bytes("-_-_"), Ok(vec![0xfb, 0xff, 0xbf]));
    assert_eq!(url_safe_str_to_bytes("+/+/"), Err(EncodingError));
    assert_eq!(url_safe_str_to_bytes("YW Jj"), Err(EncodingError));
    assert_eq!(url_safe_str_to_bytes("YWJ\u{e9}"), Err(EncodingError));
}

#[test]
fn url_safe_decode_refuses_padding_that_is_not_canonical() {
    assert_eq!(url_safe_str_to_bytes("YQ=="), Ok(b"a".to_vec()));
    assert_eq!(url_safe_str_to_bytes("YR=="), Err(EncodingError));
    assert_eq!(url_safe_str_to_bytes("YR"), Err(EncodingError));
    assert_eq!(url_safe_str_to_bytes("===="), Err(EncodingError));
    assert_eq!(url_safe_str_to_bytes("YQ==YQ=="), Err(EncodingError));
    assert_eq!(url_safe_str_to_bytes("YQ==="), Err(EncodingError));
}

#[test]
fn url_safe_decode_completes_padding_that_is_short() {
    assert_eq!(url_safe_str_to_bytes("YQ="), Ok(b"a".to_vec()));
}

#[test]
fn token_of_four_characters_decodes_to_three_bytes() {
    assert_eq!(url_safe_str_to_bytes("ABCD"), Ok(vec![0x00, 0x10, 0x83]));
}

#[test]
fn standard_encode_pads_and_uses_the_standard_alphabet() {
    assert_eq!(bytes_to_base64(b""), "");
    assert_eq!(bytes_to_base64(b"a"), "YQ==");
    assert_eq!(bytes_to_base64(b"ab"), "YWI=");
    assert_eq!(bytes_to_base64(b"abc"), "YWJj");
    assert_eq!(bytes_to_base64(b"abcd"), "YWJjZA==");
    assert_eq!(bytes_to_base64(&[0xfb, 0xff, 0xbf]), "+/+/");
}

#[test]
fn standard_decode_wants_padding() {
    assert_eq!(base64_to_bytes("YWJjZA=="), Ok(b"abcd".to_vec()));
    assert_eq!(base64_to_bytes("YWJjZA"), Err(EncodingError));
    assert_eq!(base64_to_bytes("+/+/"), Ok(vec![0xfb, 0xff, 0xbf]));
    assert_eq!(base64_to_bytes("-_-_"), Err(EncodingError));
    assert_eq!(base64_to_bytes(""), Ok(vec![]));
    assert_eq!(base64_to_bytes("not base64!"), Err(EncodingError));
}

#[test]
fn standard_decode_inverts_standard_encode() {
    for len in 0..50usize {
        let bytes: Vec<u8> = (0..len).map(|i| (i * 31 + 200) as u8).collect();
        let text = bytes_to_base64(&bytes);
        assert_eq!(text.len(), 4 * ((len + 2) / 3));
        assert_eq!(base64_to_bytes(&text), Ok(bytes));
    }
}

#[test]
fn json_object_of_strings_becomes_a_dictionary() {
    let dict = json_to_dict(r#"{"client_key":"abc","hostname":"example.com"}"#);
    assert_eq!(dict.get("client_key"), Some(&"abc".to_string()));
    assert_eq!(dict.get("hostname"), Some(&"example.com".to_string()));
    assert_eq!(dict.get("app_key"), None);
}

#[test]
fn any_other_text_becomes_the_empty_dictionary() {
    for text in ["", "not json", "[1,2]", r#"{"a":1}"#, r#"{"a":"x","b":["y"]}"#, r#"{"a":"x"} tail"#] {
        let dict = json_to_dict(text);
        assert_eq!(dict.get("a"), None);
        assert_eq!(dict.as_entries().len(), 0);
    }
}

#[test]
fn json_escapes_are_resolved() {
    let dict = json_to_dict(r#"{"kA":"line\nbreak \"quoted\""}"#);
    assert_eq!(dict.get("kA"), Some(&"line\nbreak \"quoted\"".to_string()));
}

#[test]
fn a_key_that_occurs_twice_keeps_its_last_value() {
    let dict = json_to_dict(r#"{"a":"1","a":"2"}"#);
    assert_eq!(dict.get("a"), Some(&"2".to_string()));
    assert_eq!(dict.as_entries().len(), 1);
}
