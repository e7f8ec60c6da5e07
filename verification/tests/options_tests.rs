use transcode::options::parse_opts;

fn pairs(bytes: &[u8]) -> Option<Vec<(String, String)>> {
    parse_opts(bytes).map(|v| {
        v.into_iter()
            .map(|(k, val)| {
                (String::from_utf8(k).unwrap(), String::from_utf8(val).unwrap())
            })
            .collect()
    })
}

fn pair(k: &str, v: &str) -> (String, String) {
    (k.to_string(), v.to_string())
}

#[test]
fn parses_the_default_preset() {
    assert_eq!(pairs(b"preset=medium"), Some(vec![pair("preset", "medium")]));
}

#[test]
fn parses_several_options() {
    assert_eq!(
        pairs(b"preset=veryslow,crf=18"),
        Some(vec![pair("preset", "veryslow"), pair("crf", "18")])
    );
}

#[test]
fn empty_string_holds_no_options() {
    assert_eq!(pairs(b""), Some(vec![]));
}

#[test]
fn trailing_comma_closes_the_list() {
    assert_eq!(pairs(b"a=b,"), Some(vec![pair("a", "b")]));
}

#[test]
fn empty_key_and_value_are_allowed() {
    assert_eq!(pairs(b"="), Some(vec![pair("", "")]));
    assert_eq!(pairs(b"a="), Some(vec![pair("a", "")]));
    assert_eq!(pairs(b"=b"), Some(vec![pair("", "b")]));
}

#[test]
fn segment_without_equals_is_malformed() {
    assert_eq!(pairs(b"preset"), None);
    assert_eq!(pairs(b"a=b,oops"), None);
    assert_eq!(pairs(b","), None);
}

#[test]
fn segment_with_two_equals_is_malformed() {
    assert_eq!(pairs(b"a=b=c"), None);
    assert_eq!(pairs(b"x=1,a=b=c,y=2"), None);
}
