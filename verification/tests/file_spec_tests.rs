use mcs::file_spec::file_name_from;

#[test]
fn file_name_member_is_read() {
    assert_eq!(file_name_from("{\"file_name\":\"greeting\"}"), Some("greeting".to_string()));
    assert_eq!(
        file_name_from(" { \"action\" : \"play\" , \"file_name\" : \"hello-1\" , \"meta_data\":\"{}\" } "),
        Some("hello-1".to_string())
    );
    assert_eq!(
        file_name_from("{\"meta_data\":\"{\\\"x\\\":\\\"y\\\"}\",\"n\":12,\"file_name\":\"a b\"}"),
        Some("a b".to_string())
    );
    assert_eq!(file_name_from("{\"flag\":true,\"file_name\":\"\"}"), Some(String::new()));
}

#[test]
fn file_name_escapes_are_decoded() {
    assert_eq!(file_name_from("{\"file_name\":\"a\\\"b\"}"), Some("a\"b".to_string()));
    assert_eq!(file_name_from("{\"file_name\":\"x\\/y\\\\z\"}"), Some("x/y\\z".to_string()));
    assert_eq!(file_name_from("{\"file_name\":\"t\\tn\\n\"}"), Some("t\tn\n".to_string()));
    assert_eq!(file_name_from("{\"file_name\":\"\\u0041\\u00e9\"}"), Some("A\u{e9}".to_string()));
    assert_eq!(file_name_from("{\"file_name\":\"\\ud83d\\uDE00!\"}"), Some("\u{1f600}!".to_string()));
    assert_eq!(file_name_from("{\"file\\u005fname\":\"k\"}"), Some("k".to_string()));
    assert_eq!(file_name_from("{\"file_name\":\"\\ud83d\"}"), None);
    assert_eq!(file_name_from("{\"file_name\":\"\\ude00\"}"), None);
    assert_eq!(file_name_from("{\"file_name\":\"\\u00g1\"}"), None);
    assert_eq!(file_name_from("{\"file_name\":\"\\u41\"}"), None);
    assert_eq!(file_name_from("{\"file_name\":\"a\\q\"}"), None);
}

#[test]
fn nested_values_before_file_name_are_skipped() {
    assert_eq!(
        file_name_from("{\"meta_data\":{\"k\":[1,{\"x\":\"}]\"}],\"file_name\":\"no\"},\"file_name\":\"yes\"}"),
        Some("yes".to_string())
    );
    assert_eq!(file_name_from("{\"list\":[],\"file_name\":\"e\"}"), Some("e".to_string()));
    assert_eq!(file_name_from("{\"list\":[1,2,\"file_name\":\"e\"}"), None);
}

#[test]
fn file_name_missing_or_unusable() {
    assert_eq!(file_name_from("greeting"), None);
    assert_eq!(file_name_from(""), None);
    assert_eq!(file_name_from("{}"), None);
    assert_eq!(file_name_from("{\"action\":\"play\"}"), None);
    assert_eq!(file_name_from("{\"file_name\":12}"), None);
    assert_eq!(file_name_from("{\"file_name\" \"a\"}"), None);
    assert_eq!(file_name_from("{\"file_name\":\"unterminated"), None);
    assert_eq!(file_name_from("{\"a\":{\"file_name\":\"x\"}}"), None);
}
