use fluent_value::locale::{check_all_negotiable, check_negotiable};
use fluent_value::number::{is_number, small_integer_text};
use fluent_value::plural::PluralCategory;
use fluent_value::text::same_text;

#[test]
fn number_texts_are_those_that_parse_as_floats() {
    let samples = [
        "", "0", "1", "-1", "+1", "1.", ".1", ".", "-.", "+.5", "1.5", "01.50", "1e5", "1E5",
        "1e+5", "1e-5", "1e", "1e+", "e5", ".e5", "1.e5", ".5e5", "1.5e5.5", "1e5e5", "inf",
        "Inf", "INF", "-inf", "+inf", "infinity", "INFINITY", "infinit", "infinityy", "nan",
        "NaN", "-nan", "nann", "na", "i", " 1", "1 ", "1\n", "0x1", "1_0", "1,0", "--1", "+-1",
        "1f", "1.0f", "١٢٣", "1é", "é", "-", "+", "123456789012345678901234567890",
        "0.000000000000000000000000000001", "1e400", "-0", "00", "In", "iNfInItY", "nAn",
        "1.2.3", "..1", "1..", "E5", "1Ee5", "1e5 ",
    ];
    for s in samples {
        assert_eq!(is_number(s), s.parse::<f64>().is_ok(), "{:?}", s);
    }
}

#[test]
fn number_text_examples() {
    assert!(is_number("1"));
    assert!(is_number("1.0"));
    assert!(is_number("-12.5e-3"));
    assert!(is_number("infinity"));
    assert!(!is_number("abc"));
    assert!(!is_number(""));
    assert!(!is_number("1 "));
}

#[test]
fn small_integer_text_is_decimal() {
    assert_eq!(small_integer_text(0), "0");
    assert_eq!(small_integer_text(9), "9");
    assert_eq!(small_integer_text(10), "10");
    assert_eq!(small_integer_text(-128), "-128");
    for n in i8::MIN..=i8::MAX {
        assert_eq!(small_integer_text(n), format!("{}", n));
        assert!(is_number(&small_integer_text(n)));
    }
}

#[test]
fn selector_keys_name_categories() {
    assert_eq!(PluralCategory::from_key("zero"), Some(PluralCategory::Zero));
    assert_eq!(PluralCategory::from_key("one"), Some(PluralCategory::One));
    assert_eq!(PluralCategory::from_key("two"), Some(PluralCategory::Two));
    assert_eq!(PluralCategory::from_key("few"), Some(PluralCategory::Few));
    assert_eq!(PluralCategory::from_key("many"), Some(PluralCategory::Many));
    assert_eq!(PluralCategory::from_key("other"), Some(PluralCategory::Other));
    assert_eq!(PluralCategory::from_key("foo"), None);
    assert_eq!(PluralCategory::from_key(""), None);
    assert_eq!(PluralCategory::from_key("One"), None);
    assert_eq!(PluralCategory::from_key("ones"), None);
    assert_eq!(PluralCategory::from_key("on"), None);
    assert_eq!(PluralCategory::from_key(" one"), None);
}

#[test]
fn same_text_compares_whole_strings() {
    assert!(same_text("", ""));
    assert!(same_text("one", "one"));
    assert!(same_text("żółw", "żółw"));
    assert!(!same_text("one", "on"));
    assert!(!same_text("one", "onE"));
    assert!(!same_text("", "a"));
}

#[test]
fn tags_without_unknown_extension_keys_are_negotiable() {
    let fine = [
        "", "en", "en-US", "pt_BR", "zh-Hant-TW", "de-DE-1996", "root", "-", "--", "en-", "é",
        "é-u-nu-latn", "x", "en-x-private", "en-x-a-b-c", "en-a", "en_u", "u-hc-h12",
        "en-u-hc-h12", "en-US-u-ca-gregory", "en-u-hc-h12-ca-gregory", "en-u-hc", "en-u-ca-a",
        "en-1-zz", "en-u-hc--ca-x", "en-t-ca",
    ];
    for tag in fine {
        assert!(check_negotiable(tag), "{:?}", tag);
    }
    let refused = [
        "en-u-nu-latn", "a-b", "i-klingon", "en-u-", "en-X-foo", "en-u-HC-h12", "en-u-hc-h12-nu",
        "en-u-hcc-h12", "en-u-h-h12", "en-t-nu", "u--hc", "en-u-hc-h12-x",
    ];
    for tag in refused {
        assert!(!check_negotiable(tag), "{:?}", tag);
    }
}

#[test]
fn every_tag_is_checked() {
    let tags = |list: &[&str]| list.iter().map(|t| t.to_string()).collect::<Vec<String>>();
    assert!(check_all_negotiable(&tags(&[])));
    assert!(check_all_negotiable(&tags(&["en", "pl-PL"])));
    assert!(check_all_negotiable(&tags(&["en", "pl-u-ca-greg"])));
    assert!(!check_all_negotiable(&tags(&["en", "pl-u-nu-latn"])));
    assert!(!check_all_negotiable(&tags(&["a-b", "en"])));
}
