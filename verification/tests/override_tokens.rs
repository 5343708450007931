use netdiff::cli::{parser_key_val, KeyVal, KeyValType, RunArgs};
use netdiff::error::DiffError;
use netdiff::text::{char_is_whitespace, chars_of, decimal_digits, find_char, string_of, trim_range};
use netdiff::ExtraArgs;

fn token(key_type: KeyValType, key: &str, value: &str) -> KeyVal {
    KeyVal { key_type, key: key.to_string(), value: value.to_string() }
}

#[test]
fn header_token() {
    assert_eq!(parser_key_val("%X=2"), Ok(token(KeyValType::Headers, "X", "2")));
}

#[test]
fn body_token() {
    assert_eq!(parser_key_val("@name=joe"), Ok(token(KeyValType::Body, "name", "joe")));
}

#[test]
fn query_token() {
    assert_eq!(parser_key_val("page=3"), Ok(token(KeyValType::Query, "page", "3")));
    assert_eq!(parser_key_val("Zed=1"), Ok(token(KeyValType::Query, "Zed", "1")));
}

#[test]
fn token_splits_at_first_equals_sign() {
    assert_eq!(parser_key_val("a=b=c"), Ok(token(KeyValType::Query, "a", "b=c")));
}

#[test]
fn token_parts_are_trimmed() {
    assert_eq!(parser_key_val("  %k  =  v w \t"), Ok(token(KeyValType::Headers, "k", "v w")));
    assert_eq!(parser_key_val("a=\u{3000}b\u{a0}"), Ok(token(KeyValType::Query, "a", "b")));
}

#[test]
fn token_with_empty_value_and_empty_name() {
    assert_eq!(parser_key_val("a="), Ok(token(KeyValType::Query, "a", "")));
    assert_eq!(parser_key_val("%=v"), Ok(token(KeyValType::Headers, "", "v")));
}

#[test]
fn token_without_equals_sign_is_malformed() {
    assert_eq!(
        parser_key_val("novalue"),
        Err(DiffError::MalformedOverrideToken("novalue".to_string()))
    );
    assert_eq!(parser_key_val(""), Err(DiffError::MalformedOverrideToken(String::new())));
}

#[test]
fn token_with_other_first_character_is_malformed() {
    for s in ["=x", " = x", "1a=b", "-a=b", "#a=b", "\u{e9}t\u{e9}=1"] {
        assert_eq!(parser_key_val(s), Err(DiffError::MalformedOverrideToken(s.to_string())));
    }
}

#[test]
fn extra_args_keep_the_order_of_each_kind() {
    let tokens = vec![
        token(KeyValType::Query, "q1", "1"),
        token(KeyValType::Headers, "h1", "a"),
        token(KeyValType::Body, "b1", "x"),
        token(KeyValType::Headers, "h2", "b"),
        token(KeyValType::Query, "q1", "2"),
    ];
    let args = ExtraArgs::from(tokens);
    let pair = |k: &str, v: &str| (k.to_string(), v.to_string());
    assert_eq!(args.headers, vec![pair("h1", "a"), pair("h2", "b")]);
    assert_eq!(args.body, vec![pair("b1", "x")]);
    assert_eq!(args.query, vec![pair("q1", "1"), pair("q1", "2")]);
}

#[test]
fn extra_args_of_no_tokens_are_the_default() {
    assert_eq!(ExtraArgs::from(vec![]), ExtraArgs::default());
}

#[test]
fn config_file_defaults() {
    let mut args = RunArgs { profile: "p".to_string(), extra_params: vec![], config: None };
    assert_eq!(args.config_file(), "./default.yml");
    args.config = Some("other.yml".to_string());
    assert_eq!(args.config_file(), "other.yml");
}

#[test]
fn white_space_is_what_std_calls_white_space() {
    for n in 0..=0x10ffffu32 {
        if let Some(c) = char::from_u32(n) {
            assert_eq!(char_is_whitespace(c), c.is_whitespace(), "{:x}", n);
        }
    }
}

#[test]
fn trim_range_is_the_range_of_the_trimmed_text() {
    for s in ["", " ", "a", "  a b \t\n", "\u{2003}x\u{2028}", " \r\n "] {
        let v = chars_of(s);
        let (lo, hi) = trim_range(&v, 0, v.len());
        assert_eq!(string_of(&v, lo, hi), s.trim());
    }
    let v = chars_of("ab  cd  ef");
    assert_eq!(trim_range(&v, 2, 8), (4, 6));
    assert_eq!(trim_range(&v, 2, 4), (4, 4));
}

#[test]
fn find_char_finds_the_first() {
    assert_eq!(find_char(&chars_of("a=b=c"), '='), 1);
    assert_eq!(find_char(&chars_of("abc"), '='), 3);
    assert_eq!(find_char(&chars_of(""), '='), 0);
}

#[test]
fn decimal_digits_of_numbers() {
    let text = |n: u128| decimal_digits(n).into_iter().collect::<String>();
    assert_eq!(text(0), "0");
    assert_eq!(text(9), "9");
    assert_eq!(text(10), "10");
    assert_eq!(text(65535), "65535");
    assert_eq!(text(u128::MAX), u128::MAX.to_string());
}

#[test]
fn tokens_convert_into_extra_args() {
    let tokens = vec![
        token(KeyValType::Body, "b", "1"),
        token(KeyValType::Headers, "h", "2"),
        token(KeyValType::Query, "q", "3"),
        token(KeyValType::Body, "c", "4"),
    ];
    let args: ExtraArgs = tokens.clone().into();
    assert_eq!(args, ExtraArgs::from(tokens));
    let pair = |k: &str, v: &str| (k.to_string(), v.to_string());
    assert_eq!(args.body, vec![pair("b", "1"), pair("c", "4")]);
    assert_eq!(args.headers, vec![pair("h", "2")]);
    assert_eq!(args.query, vec![pair("q", "3")]);
}
