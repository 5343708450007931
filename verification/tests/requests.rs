use http::{HeaderMap, HeaderValue};
use netdiff::error::{DiffError, Part};
use netdiff::get_content_type;
use netdiff::headers::{essence_of, merge_headers, HEADER_ROOM};
use netdiff::json::JsonValue;
use netdiff::request::{Method, RequestProfile};
use netdiff::ExtraArgs;

fn number(n: u64) -> JsonValue {
    JsonValue::Number(serde_json::Number::from(n))
}

fn text(s: &str) -> JsonValue {
    JsonValue::String(s.to_string())
}

fn object(entries: Vec<(&str, JsonValue)>) -> JsonValue {
    JsonValue::Object(entries.into_iter().map(|(k, v)| (k.to_string(), v)).collect())
}

fn pairs(list: &[(&str, &str)]) -> Vec<(String, String)> {
    list.iter().map(|(k, v)| (k.to_string(), v.to_string())).collect()
}

fn headers(list: &[(&'static str, &'static str)]) -> HeaderMap {
    let mut map = HeaderMap::new();
    for (k, v) in list {
        map.insert(*k, HeaderValue::from_static(v));
    }
    map
}

fn profile(list: &[(&'static str, &'static str)], body: Option<JsonValue>) -> RequestProfile {
    RequestProfile::new(
        Method::Get,
        "https://example.com/api".to_string(),
        JsonValue::empty_object(),
        headers(list),
        body,
        None,
    )
}

#[test]
fn new_keeps_its_parts() {
    let p = RequestProfile::new(
        Method::Post,
        "https://example.com/".to_string(),
        object(vec![("a", number(1))]),
        headers(&[("x", "1")]),
        Some(JsonValue::empty_object()),
        Some("agent".to_string()),
    );
    assert_eq!(p.method, Method::Post);
    assert_eq!(p.url, "https://example.com/");
    assert_eq!(p.params, object(vec![("a", number(1))]));
    assert_eq!(p.headers, headers(&[("x", "1")]));
    assert_eq!(p.body, Some(JsonValue::empty_object()));
    assert_eq!(p.user_agent, Some("agent".to_string()));
}

#[test]
fn method_defaults_to_get() {
    assert_eq!(Method::default(), Method::Get);
}

#[test]
fn validate_accepts_objects() {
    assert_eq!(profile(&[], None).validate(), Ok(()));
    assert_eq!(profile(&[], Some(object(vec![("a", number(1))]))).validate(), Ok(()));
}

#[test]
fn validate_refuses_params_that_are_no_object() {
    let mut p = profile(&[], Some(number(1)));
    p.params = JsonValue::Null;
    assert_eq!(
        p.validate(),
        Err(DiffError::InvalidConfig { profile: None, side: None, part: Part::Params })
    );
}

#[test]
fn validate_refuses_a_body_that_is_no_object() {
    let p = profile(&[], Some(JsonValue::Array(vec![])));
    assert_eq!(
        p.validate(),
        Err(DiffError::InvalidConfig { profile: None, side: None, part: Part::Body })
    );
}

#[test]
fn override_header_wins() {
    let p = profile(&[("x", "1")], None);
    let args = ExtraArgs { headers: pairs(&[("X", "2")]), ..ExtraArgs::default() };
    let (merged, _, _) = p.gen_req_config(&args).unwrap();
    assert_eq!(merged.get("x").unwrap(), "2");
    assert_eq!(merged.len(), 2);
}

#[test]
fn later_override_wins() {
    let p = profile(&[], None);
    let args = ExtraArgs { headers: pairs(&[("k", "1"), ("K", "2")]), ..ExtraArgs::default() };
    let (merged, _, _) = p.gen_req_config(&args).unwrap();
    assert_eq!(merged.get("k").unwrap(), "2");
}

#[test]
fn merging_headers_twice_is_merging_them_once() {
    let base = headers(&[("x", "1"), ("accept", "*/*")]);
    let overrides = pairs(&[("X", "2"), ("y", "3"), ("x", "4")]);
    let once = merge_headers(&base, &overrides).unwrap();
    let twice = merge_headers(&once, &overrides).unwrap();
    assert_eq!(once, twice);
    assert_eq!(once.get("x").unwrap(), "4");
    assert_eq!(once.get("y").unwrap(), "3");
    assert_eq!(once.get("accept").unwrap(), "*/*");
    assert_eq!(once.get("content-type").unwrap(), "application/json");
    assert_eq!(once.len(), 4);
}

#[test]
fn content_type_defaults_to_json() {
    let p = profile(&[], None);
    let (merged, body, query) = p.gen_req_config(&ExtraArgs::default()).unwrap();
    assert_eq!(merged.get("content-type").unwrap(), "application/json");
    assert_eq!(body, "{}");
    assert_eq!(query, JsonValue::empty_object());
}

#[test]
fn json_body_is_written_as_json() {
    let p = profile(&[("content-type", "application/json")], Some(object(vec![("a", number(1))])));
    let (_, body, _) = p.gen_req_config(&ExtraArgs::default()).unwrap();
    assert_eq!(body, r#"{"a":1}"#);
}

#[test]
fn form_body_is_written_as_a_query_string() {
    let p = profile(
        &[("content-type", "application/x-www-form-urlencoded")],
        Some(object(vec![("a", number(1))])),
    );
    let (_, body, _) = p.gen_req_config(&ExtraArgs::default()).unwrap();
    assert_eq!(body, "a=1");
}

#[test]
fn multipart_body_is_written_as_a_query_string() {
    let p = profile(
        &[("content-type", "multipart/form-data; boundary=x")],
        Some(object(vec![("a", text("b")), ("c", JsonValue::Bool(true))])),
    );
    let (_, body, _) = p.gen_req_config(&ExtraArgs::default()).unwrap();
    assert_eq!(body, "a=b&c=true");
}

#[test]
fn the_content_type_of_an_override_decides() {
    let p = profile(&[("content-type", "text/plain")], Some(object(vec![("a", number(1))])));
    let args = ExtraArgs {
        headers: pairs(&[("Content-Type", "Application/JSON; charset=utf-8")]),
        ..ExtraArgs::default()
    };
    let (_, body, _) = p.gen_req_config(&args).unwrap();
    assert_eq!(body, r#"{"a":1}"#);
}

#[test]
fn other_content_type_is_unsupported() {
    let p = profile(&[("content-type", "text/plain")], None);
    assert_eq!(
        p.gen_req_config(&ExtraArgs::default()),
        Err(DiffError::UnsupportedContentType("text/plain".to_string()))
    );
    let p = profile(&[("content-type", "nonsense")], None);
    assert_eq!(
        p.gen_req_config(&ExtraArgs::default()),
        Err(DiffError::UnsupportedContentType("nonsense".to_string()))
    );
}

#[test]
fn body_and_query_overrides_are_set_as_scalars() {
    let mut p = profile(&[], Some(object(vec![("a", number(1)), ("keep", text("k"))])));
    p.params = object(vec![("page", number(1))]);
    let args = ExtraArgs {
        headers: vec![],
        body: pairs(&[("a", "2"), ("b", "true"), ("c", "text"), ("a", "3")]),
        query: pairs(&[("page", "2"), ("sort", "desc")]),
    };
    let (_, body, query) = p.gen_req_config(&args).unwrap();
    assert_eq!(body, r#"{"a":3,"b":true,"c":"text","keep":"k"}"#);
    assert_eq!(query, object(vec![("page", number(2)), ("sort", text("desc"))]));
    assert_eq!(p.params, object(vec![("page", number(1))]));
}

#[test]
fn invalid_profile_is_not_merged() {
    let mut p = profile(&[], None);
    p.params = JsonValue::Array(vec![]);
    assert_eq!(
        p.gen_req_config(&ExtraArgs::default()),
        Err(DiffError::InvalidConfig { profile: None, side: None, part: Part::Params })
    );
}

#[test]
fn override_with_invalid_header_name() {
    let p = profile(&[], None);
    let args = ExtraArgs { headers: pairs(&[("ok", "1"), ("bad name", "2")]), ..ExtraArgs::default() };
    assert_eq!(p.gen_req_config(&args), Err(DiffError::InvalidHeaderName("bad name".to_string())));
    let args = ExtraArgs { headers: pairs(&[("", "2")]), ..ExtraArgs::default() };
    assert_eq!(p.gen_req_config(&args), Err(DiffError::InvalidHeaderName(String::new())));
}

#[test]
fn override_with_invalid_header_value() {
    let p = profile(&[], None);
    let args = ExtraArgs { headers: pairs(&[("x", "a\nb")]), ..ExtraArgs::default() };
    assert_eq!(p.gen_req_config(&args), Err(DiffError::InvalidHeaderValue("x".to_string())));
    let args = ExtraArgs { headers: pairs(&[("x", "a\u{7f}")]), ..ExtraArgs::default() };
    assert_eq!(p.gen_req_config(&args), Err(DiffError::InvalidHeaderValue("x".to_string())));
}

#[test]
fn header_value_may_hold_tabs_and_other_letters() {
    let p = profile(&[], None);
    let args = ExtraArgs { headers: pairs(&[("x", "a\tb \u{e9}")]), ..ExtraArgs::default() };
    let (merged, _, _) = p.gen_req_config(&args).unwrap();
    assert_eq!(merged.get("x").unwrap().as_bytes(), "a\tb \u{e9}".as_bytes());
}

#[test]
fn header_name_characters() {
    let base = HeaderMap::new();
    let good = "aZ09!#$%&'*+-.^_`|~";
    let merged = merge_headers(&base, &pairs(&[(good, "v")])).unwrap();
    assert_eq!(merged.get("az09!#$%&'*+-.^_`|~").unwrap(), "v");
    for bad in ["a b", "a:b", "a(b", "a\"b", "a/b", "a=b", "a{b", "a\u{e9}", "a@b", "a,b", "a;b"] {
        assert_eq!(
            merge_headers(&base, &pairs(&[(bad, "v")])),
            Err(DiffError::InvalidHeaderName(bad.to_string()))
        );
    }
}

#[test]
fn content_type_of_headers() {
    assert_eq!(get_content_type(&HeaderMap::new()), None);
    assert_eq!(
        get_content_type(&headers(&[("content-type", "application/json")])),
        Some("application/json".to_string())
    );
    assert_eq!(
        get_content_type(&headers(&[("content-type", "Text/HTML;charset=utf-8")])),
        Some("text/html".to_string())
    );
    assert_eq!(get_content_type(&headers(&[("content-type", "json")])), None);
}

#[test]
fn essence_of_a_header_value() {
    assert_eq!(essence_of("application/json; charset=utf-8"), Some("application/json".to_string()));
    assert_eq!(essence_of(";application/json"), None);
    assert_eq!(essence_of(""), None);
}

#[test]
fn profile_from_a_url() {
    let p = RequestProfile::from_str("https://example.com/path?a=1&b=x&c=true").unwrap();
    assert_eq!(p.method, Method::Get);
    assert_eq!(p.url, "https://example.com/path");
    assert_eq!(
        p.params,
        object(vec![("a", number(1)), ("b", text("x")), ("c", JsonValue::Bool(true))])
    );
    assert!(p.headers.is_empty());
    assert_eq!(p.body, None);
    assert_eq!(p.user_agent, None);
    assert_eq!(p.validate(), Ok(()));
}

#[test]
fn profile_from_a_url_without_query() {
    let p = RequestProfile::from_str("http://example.com").unwrap();
    assert_eq!(p.url, "http://example.com/");
    assert_eq!(p.params, JsonValue::empty_object());
}

#[test]
fn profile_from_a_url_keeps_the_last_of_a_repeated_key() {
    let p = RequestProfile::from_str("http://example.com/?a=1&a=2").unwrap();
    assert_eq!(p.params, object(vec![("a", number(2))]));
}

#[test]
fn profile_from_what_is_no_url() {
    assert_eq!(
        RequestProfile::from_str("not a url"),
        Err(DiffError::InvalidUrl("not a url".to_string()))
    );
    assert_eq!(RequestProfile::from_str("/relative"), Err(DiffError::InvalidUrl("/relative".to_string())));
}

#[test]
fn url_with_its_params_has_the_query_it_came_with() {
    let given = "https://example.com/path?b=x&a=1";
    let p = RequestProfile::from_str(given).unwrap();
    let mut args = ExtraArgs::default();
    if let JsonValue::Object(entries) = &p.params {
        for (k, v) in entries {
            let v = match v {
                JsonValue::String(s) => s.clone(),
                JsonValue::Number(n) => n.to_string(),
                other => panic!("{:?}", other),
            };
            args.query.push((k.clone(), v));
        }
    }
    let rebuilt = url::Url::parse(&p.get_url(&args).unwrap()).unwrap();
    let mut got: Vec<(String, String)> = rebuilt.query_pairs().into_owned().collect();
    let mut want: Vec<(String, String)> =
        url::Url::parse(given).unwrap().query_pairs().into_owned().collect();
    got.sort();
    want.sort();
    assert_eq!(got, want);
}

#[test]
fn shown_url_has_the_override_query() {
    let p = profile(&[], None);
    assert_eq!(p.get_url(&ExtraArgs::default()).unwrap(), "https://example.com/api");
    let args = ExtraArgs { query: pairs(&[("a", "1"), ("b", "x y")]), ..ExtraArgs::default() };
    assert_eq!(p.get_url(&args).unwrap(), "https://example.com/api?a=1&b=x+y");
}

#[test]
fn shown_url_of_what_is_no_url() {
    let mut p = profile(&[], None);
    p.url = "nonsense".to_string();
    let args = ExtraArgs { query: pairs(&[("a", "1")]), ..ExtraArgs::default() };
    assert_eq!(p.get_url(&args), Err(DiffError::InvalidUrl("nonsense".to_string())));
}

#[test]
fn a_url_parses_into_a_profile() {
    let p: RequestProfile = "https://example.com/x?k=v".parse().unwrap();
    assert_eq!(p, RequestProfile::from_str("https://example.com/x?k=v").unwrap());
    assert_eq!(p.params, object(vec![("k", text("v"))]));
    let r: Result<RequestProfile, DiffError> = "::".parse();
    assert_eq!(r, Err(DiffError::InvalidUrl("::".to_string())));
}

#[test]
fn every_character_of_a_header_name() {
    let base = HeaderMap::new();
    for n in 0..=0x3000u32 {
        let Some(c) = char::from_u32(n) else { continue };
        let name = format!("x{c}");
        let wanted = c.is_ascii_alphanumeric() || "!#$%&'*+-.^_`|~".contains(c);
        match merge_headers(&base, &pairs(&[(name.as_str(), "v")])) {
            Ok(merged) => {
                assert!(wanted, "{:x}", n);
                let stored: Vec<&str> = merged.keys().map(|k| k.as_str()).collect();
                assert!(stored.contains(&name.to_ascii_lowercase().as_str()), "{:x}", n);
            }
            Err(e) => {
                assert!(!wanted, "{:x}", n);
                assert_eq!(e, DiffError::InvalidHeaderName(name));
            }
        }
    }
}

#[test]
fn every_character_of_a_header_value() {
    let base = HeaderMap::new();
    for n in 0..=0x3000u32 {
        let Some(c) = char::from_u32(n) else { continue };
        let value = format!("v{c}");
        let wanted = c == '\t' || (c >= ' ' && c != '\u{7f}');
        match merge_headers(&base, &pairs(&[("x", value.as_str())])) {
            Ok(merged) => {
                assert!(wanted, "{:x}", n);
                assert_eq!(merged.get("x").unwrap().as_bytes(), value.as_bytes());
            }
            Err(e) => {
                assert!(!wanted, "{:x}", n);
                assert_eq!(e, DiffError::InvalidHeaderValue("x".to_string()));
            }
        }
    }
}

#[test]
fn header_name_may_have_65535_characters() {
    let base = HeaderMap::new();
    let longest = "a".repeat(65535);
    assert!(merge_headers(&base, &pairs(&[(longest.as_str(), "v")])).is_ok());
    let mixed = "A".repeat(65535);
    let merged = merge_headers(&base, &pairs(&[(mixed.as_str(), "v")])).unwrap();
    assert_eq!(merged.get(longest.as_str()).unwrap(), "v");
    let too_long = "a".repeat(65536);
    assert_eq!(
        merge_headers(&base, &pairs(&[(too_long.as_str(), "v")])),
        Err(DiffError::InvalidHeaderName(too_long.clone()))
    );
    let long_and_bad = format!("{} ", "a".repeat(100));
    assert_eq!(
        merge_headers(&base, &pairs(&[(long_and_bad.as_str(), "v")])),
        Err(DiffError::InvalidHeaderName(long_and_bad.clone()))
    );
}

#[test]
fn the_name_of_a_header_is_looked_at_before_its_value() {
    let base = HeaderMap::new();
    assert_eq!(
        merge_headers(&base, &pairs(&[("bad name", "bad\nvalue")])),
        Err(DiffError::InvalidHeaderName("bad name".to_string()))
    );
    assert_eq!(
        merge_headers(&base, &pairs(&[("x", "bad\nvalue"), ("bad name", "v")])),
        Err(DiffError::InvalidHeaderValue("x".to_string()))
    );
}

#[test]
fn content_type_is_found_whatever_the_case_of_its_name() {
    let mut map = HeaderMap::new();
    map.insert("Content-Type".parse::<http::HeaderName>().unwrap(), HeaderValue::from_static("text/css"));
    assert_eq!(get_content_type(&map), Some("text/css".to_string()));
    let merged = merge_headers(&map, &vec![]).unwrap();
    assert_eq!(merged, map);
}

#[test]
fn content_type_with_other_bytes_is_none() {
    let mut map = HeaderMap::new();
    map.insert("content-type", HeaderValue::from_bytes(b"application/json\xff").unwrap());
    assert_eq!(get_content_type(&map), None);
}

fn many_headers(n: usize) -> HeaderMap {
    let mut map = HeaderMap::new();
    for i in 0..n {
        let name: http::HeaderName = format!("x-{i}").parse().unwrap();
        map.insert(name, HeaderValue::from_static("v"));
    }
    map
}

#[test]
fn a_map_below_its_room_takes_every_header() {
    assert_eq!(HEADER_ROOM, 6554);
    let base = many_headers(HEADER_ROOM - 2);
    let merged = merge_headers(&base, &pairs(&[("one-more", "1")])).unwrap();
    assert_eq!(merged.len(), HEADER_ROOM);
    assert_eq!(merged.get("content-type").unwrap(), "application/json");
    assert_eq!(merged.get("one-more").unwrap(), "1");
    let again = merge_headers(&merged, &pairs(&[("one-more", "1")])).unwrap();
    assert_eq!(again, merged);
}

#[test]
fn a_merge_adds_a_header_for_each_new_name_only() {
    let mut base = headers(&[("a", "1"), ("content-type", "application/json")]);
    base.append("a", HeaderValue::from_static("2"));
    assert_eq!(base.len(), 3);
    let merged = merge_headers(&base, &pairs(&[("A", "3"), ("b", "4"), ("B", "5")])).unwrap();
    assert_eq!(merged.len(), 3);
    assert_eq!(merged.get_all("a").iter().count(), 1);
    assert_eq!(merged.get("a").unwrap(), "3");
    assert_eq!(merged.get("b").unwrap(), "5");
}

/// A map of `n` headers, the content type among them; a header that the map refuses once
/// is put in again.
fn filled(n: usize) -> HeaderMap {
    let mut map = HeaderMap::new();
    map.insert("content-type", HeaderValue::from_static("application/json"));
    let mut i = 0;
    while map.len() < n {
        let name: http::HeaderName = format!("x-{i}").parse().unwrap();
        if map.try_insert(name, HeaderValue::from_static("v")).is_ok() {
            i += 1;
        }
    }
    map
}

#[test]
fn a_large_profile_is_merged_or_refused() {
    let mut p = profile(&[], Some(object(vec![("a", number(1))])));
    p.headers = filled(20000);
    let args = ExtraArgs { headers: pairs(&[("one-more", "1")]), ..ExtraArgs::default() };
    match p.gen_req_config(&args) {
        Ok((merged, body, _)) => {
            assert_eq!(merged.len(), 20001);
            assert_eq!(body, r#"{"a":1}"#);
        }
        Err(e) => assert_eq!(e, DiffError::TooManyHeaders),
    }
}

#[test]
fn a_full_map_refuses_a_new_header() {
    let base = filled(24576);
    assert_eq!(
        merge_headers(&base, &pairs(&[("one-more", "1")])),
        Err(DiffError::TooManyHeaders)
    );
    assert_eq!(merge_headers(&base, &vec![]), Ok(base.clone()));
    assert_eq!(
        merge_headers(&base, &pairs(&[("bad name", "1"), ("one-more", "1")])),
        Err(DiffError::InvalidHeaderName("bad name".to_string()))
    );
    let mut p = profile(&[], None);
    p.headers = base;
    let args = ExtraArgs { headers: pairs(&[("one-more", "1")]), ..ExtraArgs::default() };
    assert_eq!(p.gen_req_config(&args), Err(DiffError::TooManyHeaders));
    assert!(p.gen_req_config(&ExtraArgs::default()).is_ok());
    p.params = JsonValue::Null;
    assert_eq!(
        p.gen_req_config(&args),
        Err(DiffError::InvalidConfig { profile: None, side: None, part: Part::Params })
    );
}

#[test]
fn a_map_refuses_no_header_below_its_room() {
    for prefix in ["x-", "content-"] {
        let mut base = HeaderMap::new();
        let mut i = 0;
        loop {
            let name = format!("{prefix}{i}");
            match merge_headers(&base, &pairs(&[(name.as_str(), "v")])) {
                Ok(merged) => base = merged,
                Err(e) => {
                    assert_eq!(e, DiffError::TooManyHeaders);
                    assert!(base.len() >= HEADER_ROOM, "{}", base.len());
                    break;
                }
            }
            i += 1;
            if base.len() >= 6600 {
                break;
            }
        }
        assert!(base.len() >= HEADER_ROOM);
    }
}
