use fluent_value::{FluentValue, InvalidNumber, MessageContext};

fn context(locales: &[&str]) -> MessageContext {
    MessageContext::new(locales.iter().map(|tag| tag.to_string()).collect()).unwrap()
}

#[test]
fn text_formats_to_itself() {
    let ctx = context(&["en"]);
    for s in ["", "hello", "one", "1.0", "zażółć gęślą jaźń", " spaced "] {
        assert_eq!(FluentValue::from(s).format(&ctx), s);
        assert_eq!(FluentValue::from(s.to_string()).format(&ctx), s);
    }
}

#[test]
fn text_conversions_give_text() {
    assert_eq!(FluentValue::from("one"), FluentValue::String("one".to_string()));
    assert_eq!(FluentValue::from("1".to_string()), FluentValue::String("1".to_string()));
}

#[test]
fn number_keeps_the_text_it_was_given() {
    let ctx = context(&["en"]);
    for n in ["1", "1.0", "007", "-1.5e3", "+2", ".5", "5.", "1E-7", "inf", "-Infinity", "NaN"] {
        let value = FluentValue::as_number(n).unwrap();
        assert_eq!(value, FluentValue::Number(n.to_string()));
        assert_eq!(value.format(&ctx), n);
    }
}

#[test]
fn text_that_is_no_number_is_refused() {
    for x in ["abc", "", ".", "+", "-", "e5", "1e", "1e+", " 1", "1 ", "--1", "0x10", "1_000", "1,5", "1.2.3", "infinit", "١"] {
        assert_eq!(FluentValue::as_number(x), Err(InvalidNumber));
    }
}

#[test]
fn small_integers_become_decimal_numbers() {
    assert_eq!(FluentValue::from(0i8), FluentValue::Number("0".to_string()));
    assert_eq!(FluentValue::from(5i8), FluentValue::Number("5".to_string()));
    assert_eq!(FluentValue::from(42i8), FluentValue::Number("42".to_string()));
    assert_eq!(FluentValue::from(127i8), FluentValue::Number("127".to_string()));
    assert_eq!(FluentValue::from(-1i8), FluentValue::Number("-1".to_string()));
    assert_eq!(FluentValue::from(-100i8), FluentValue::Number("-100".to_string()));
    assert_eq!(FluentValue::from(-128i8), FluentValue::Number("-128".to_string()));
}

#[test]
fn number_never_matches_text() {
    let ctx = context(&["en"]);
    let one = FluentValue::as_number("1").unwrap();
    assert!(!one.matches(&ctx, &FluentValue::from("one")));
    assert!(!one.matches(&ctx, &FluentValue::from("1")));
    assert!(FluentValue::from("one").matches(&ctx, &one));
}

#[test]
fn texts_match_when_equal() {
    let ctx = context(&["en"]);
    assert!(FluentValue::from("a").matches(&ctx, &FluentValue::from("a")));
    assert!(FluentValue::from("").matches(&ctx, &FluentValue::from("")));
    assert!(FluentValue::from("one").matches(&ctx, &FluentValue::from("one")));
    assert!(!FluentValue::from("a").matches(&ctx, &FluentValue::from("b")));
    assert!(!FluentValue::from("a").matches(&ctx, &FluentValue::from("A")));
    assert!(!FluentValue::from("a").matches(&ctx, &FluentValue::from("ab")));
}

#[test]
fn numbers_match_by_their_text() {
    let ctx = context(&["en"]);
    let one = FluentValue::as_number("1").unwrap();
    assert!(one.matches(&ctx, &FluentValue::as_number("1").unwrap()));
    assert!(!one.matches(&ctx, &FluentValue::as_number("1.0").unwrap()));
    assert!(!one.matches(&ctx, &FluentValue::as_number("01").unwrap()));
    let long = FluentValue::as_number("1.50").unwrap();
    assert!(long.matches(&ctx, &FluentValue::as_number("1.50").unwrap()));
}

#[test]
fn english_categories() {
    let ctx = context(&["en"]);
    let number = |n: &str| FluentValue::as_number(n).unwrap();
    assert!(FluentValue::from("one").matches(&ctx, &number("1")));
    assert!(FluentValue::from("other").matches(&ctx, &number("5")));
    assert!(!FluentValue::from("one").matches(&ctx, &number("5")));
    assert!(!FluentValue::from("other").matches(&ctx, &number("1")));
    assert!(FluentValue::from("other").matches(&ctx, &number("1.0")));
    assert!(FluentValue::from("other").matches(&ctx, &number("0")));
    assert!(!FluentValue::from("zero").matches(&ctx, &number("0")));
    assert!(!FluentValue::from("few").matches(&ctx, &number("3")));
}

#[test]
fn unknown_selector_key_matches_no_number() {
    let ctx = context(&["en"]);
    for n in ["0", "1", "2", "5", "1.5", "-3", "100"] {
        let number = FluentValue::as_number(n).unwrap();
        assert!(!FluentValue::from("foo").matches(&ctx, &number));
        assert!(!FluentValue::from("One").matches(&ctx, &number));
        assert!(!FluentValue::from("").matches(&ctx, &number));
        assert!(!FluentValue::from(n).matches(&ctx, &number));
    }
}

#[test]
fn no_requested_locale_falls_back_to_english() {
    let ctx = context(&[]);
    let number = |n: &str| FluentValue::as_number(n).unwrap();
    assert!(FluentValue::from("one").matches(&ctx, &number("1")));
    assert!(FluentValue::from("other").matches(&ctx, &number("5")));
    assert!(!FluentValue::from("one").matches(&ctx, &number("5")));
}

#[test]
fn unsupported_locale_falls_back_to_english() {
    let ctx = context(&["tlh"]);
    let number = |n: &str| FluentValue::as_number(n).unwrap();
    assert!(FluentValue::from("one").matches(&ctx, &number("1")));
    assert!(FluentValue::from("other").matches(&ctx, &number("2")));
}

#[test]
fn categories_follow_the_requested_locale() {
    let number = |n: &str| FluentValue::as_number(n).unwrap();
    let polish = context(&["pl"]);
    assert!(FluentValue::from("one").matches(&polish, &number("1")));
    assert!(FluentValue::from("few").matches(&polish, &number("3")));
    assert!(FluentValue::from("many").matches(&polish, &number("12")));
    assert!(FluentValue::from("other").matches(&polish, &number("5.0")));
    assert!(!FluentValue::from("other").matches(&polish, &number("3")));
    let arabic = context(&["ar"]);
    assert!(FluentValue::from("zero").matches(&arabic, &number("0")));
    assert!(FluentValue::from("two").matches(&arabic, &number("2")));
    let japanese = context(&["ja"]);
    assert!(FluentValue::from("other").matches(&japanese, &number("1")));
    assert!(!FluentValue::from("one").matches(&japanese, &number("1")));
}

#[test]
fn region_is_negotiated_away() {
    let number = |n: &str| FluentValue::as_number(n).unwrap();
    let ctx = context(&["en-US"]);
    assert!(FluentValue::from("one").matches(&ctx, &number("1")));
    let ctx = context(&["pl-PL", "en"]);
    assert!(FluentValue::from("few").matches(&ctx, &number("3")));
    let ctx = context(&["tlh", "pl"]);
    assert!(FluentValue::from("few").matches(&ctx, &number("3")));
}

#[test]
fn first_requested_locale_with_rules_wins() {
    let number = |n: &str| FluentValue::as_number(n).unwrap();
    let ctx = context(&["ja", "en"]);
    assert!(!FluentValue::from("one").matches(&ctx, &number("1")));
    let ctx = context(&["en", "ja"]);
    assert!(FluentValue::from("one").matches(&ctx, &number("1")));
}

#[test]
fn number_that_the_rules_cannot_read_matches_no_key() {
    let ctx = context(&["en"]);
    let odd = FluentValue::Number("abc".to_string());
    for key in ["zero", "one", "two", "few", "many", "other"] {
        assert!(!FluentValue::from(key).matches(&ctx, &odd));
    }
    assert!(odd.matches(&ctx, &FluentValue::Number("abc".to_string())));
}

#[test]
fn context_refuses_tags_that_negotiation_cannot_take() {
    assert!(MessageContext::new(vec!["en-u-nu-latn".to_string()]).is_none());
    assert!(MessageContext::new(vec!["en".to_string(), "a-b".to_string()]).is_none());
    assert!(MessageContext::new(vec!["en".to_string(), "de-DE".to_string()]).is_some());
    assert!(MessageContext::new(vec!["en-u-hc-h12".to_string()]).is_some());
    assert!(MessageContext::new(vec!["en-x-private".to_string()]).is_some());
    assert!(MessageContext::new(vec![]).is_some());
    assert!(MessageContext::new(vec!["".to_string()]).is_some());
    assert!(MessageContext::new(vec!["é".to_string()]).is_some());
}

#[test]
fn context_keeps_the_requested_locales() {
    let ctx = context(&["pl", "en-US"]);
    assert_eq!(ctx.locales(), &vec!["pl".to_string(), "en-US".to_string()]);
}

#[test]
fn odd_tags_are_negotiated_without_harm() {
    let one = FluentValue::as_number("1").unwrap();
    let tags = [
        "", "-", "--", "en-", "é", "é-u-nu-latn", "x", "x-y", "en-x-a-b-c", "en-a", "en_u",
        "u-hc-h12", "en-u-hc", "en-u-ca-a", "en-1-zz", "en-u-hc--ca-x", "toolongsubtag",
        "12", "en-Latn-US-variant1", "de-DE-1996", "root", "und",
        "en-u-hc-h12-ca-gregory", "de-u-ca-gregory", "fr-x-whatever", "sr-RU", "zh-Hant-TW",
    ];
    for tag in tags {
        let ctx = context(&[tag]);
        let plural = FluentValue::from("one").matches(&ctx, &one)
            || FluentValue::from("other").matches(&ctx, &one);
        assert!(plural, "{:?}", tag);
    }
}

#[test]
fn extension_and_private_parts_do_not_change_the_locale() {
    let number = |n: &str| FluentValue::as_number(n).unwrap();
    let ctx = context(&["pl-u-hc-h12"]);
    assert!(FluentValue::from("few").matches(&ctx, &number("3")));
    let ctx = context(&["pl-x-private", "ja"]);
    assert!(FluentValue::from("few").matches(&ctx, &number("3")));
}
