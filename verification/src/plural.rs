//! Plural categories and the plural rules of a locale.

use intl_pluralrules::IntlPluralRules;
use vstd::prelude::*;
use vstd::string::*;
use crate::locale::all_negotiable;
use crate::text::same_text;

verus! {

/// One of the plural categories that the rules of a locale sort numbers into.
#[derive(Clone, Copy, Debug, PartialEq, Eq, Structural)]
pub enum PluralCategory {
    Zero,
    One,
    Two,
    Few,
    Many,
    Other,
}

/// The category that a selector key names, if it names one. The keys are the
/// six category names in lower case; nothing else is a key.
pub open spec fn category_of_key(key: Seq<char>) -> Option<PluralCategory> {
    if key == "zero"@ {
        Some(PluralCategory::Zero)
    } else if key == "one"@ {
        Some(PluralCategory::One)
    } else if key == "two"@ {
        Some(PluralCategory::Two)
    } else if key == "few"@ {
        Some(PluralCategory::Few)
    } else if key == "many"@ {
        Some(PluralCategory::Many)
    } else if key == "other"@ {
        Some(PluralCategory::Other)
    } else {
        None
    }
}

impl PluralCategory {
    /// The category that `key` names, or `None` where it names none.
    pub fn from_key(key: &str) -> (category: Option<PluralCategory>)
        ensures
            category == category_of_key(key@),
    {
        if same_text(key, "zero") {
            Some(PluralCategory::Zero)
        } else if same_text(key, "one") {
            Some(PluralCategory::One)
        } else if same_text(key, "two") {
            Some(PluralCategory::Two)
        } else if same_text(key, "few") {
            Some(PluralCategory::Few)
        } else if same_text(key, "many") {
            Some(PluralCategory::Many)
        } else if same_text(key, "other") {
            Some(PluralCategory::Other)
        } else {
            None
        }
    }

    /// The key that names the category.
    pub open spec fn key(self) -> Seq<char> {
        match self {
            PluralCategory::Zero => "zero"@,
            PluralCategory::One => "one"@,
            PluralCategory::Two => "two"@,
            PluralCategory::Few => "few"@,
            PluralCategory::Many => "many"@,
            PluralCategory::Other => "other"@,
        }
    }
}

/// Every category is found again from its key, and a key names the category
/// that it is found from.
pub proof fn lemma_key_names_category(category: PluralCategory, key: Seq<char>)
    ensures
        category_of_key(category.key()) == Some(category),
        category_of_key(key) == Some(category) ==> key == category.key(),
{
    reveal_strlit("zero");
    reveal_strlit("one");
    reveal_strlit("two");
    reveal_strlit("few");
    reveal_strlit("many");
    reveal_strlit("other");
    assert("zero"@.len() == 4 && "many"@.len() == 4 && "other"@.len() == 5);
    assert("one"@[0] == 'o' && "two"@[0] == 't' && "few"@[0] == 'f');
    assert("zero"@[0] == 'z' && "many"@[0] == 'm');
}

/// Which plural rules are meant: those for counting or those for ranking.
#[derive(Clone, Copy, Debug, PartialEq, Eq, Structural)]
pub enum PluralRuleType {
    Ordinal,
    Cardinal,
}

/// What the plural rules of a locale make of a text.
#[derive(Clone, Copy, Debug, PartialEq, Eq, Structural)]
pub enum Selection {
    /// There are no rules of the wanted type for the locale.
    UnknownLocale,
    /// The rules cannot read the text as a number.
    NotANumber,
    /// The category of the number.
    Category(PluralCategory),
}

/// The locales that have plural rules of the given type, in the order in
/// which the plural rules list them.
pub uninterp spec fn supported_locales(rule_type: PluralRuleType) -> Seq<Seq<char>>;

/// What the plural rules of type `rule_type` for `locale` make of `number`.
pub uninterp spec fn plural_selection(
    locale: Seq<char>,
    rule_type: PluralRuleType,
    number: Seq<char>,
) -> Selection;

/// Calls `intl_pluralrules::IntlPluralRules::get_locales`. The list is a
/// constant of that crate for each rule type; both lists hold `en`, and no tag
/// in either has a subtag of a single character.
#[verifier::external_body]
pub(crate) fn get_locales(rule_type: PluralRuleType) -> (locales: Vec<String>)
    ensures
        locales.deep_view() == supported_locales(rule_type),
        locales.deep_view().contains("en"@),
        all_negotiable(locales.deep_view()),
{
    let prt = match rule_type {
        PluralRuleType::Ordinal => intl_pluralrules::PluralRuleType::ORDINAL,
        PluralRuleType::Cardinal => intl_pluralrules::PluralRuleType::CARDINAL,
    };
    IntlPluralRules::get_locales(prt).iter().map(|tag| String::from(*tag)).collect()
}

/// Calls `intl_pluralrules::IntlPluralRules::create` and, on the rules it
/// gives, `select`. Rules exist for exactly the locales that `get_locales`
/// lists for the rule type; what they make of a number depends on the locale,
/// the rule type and the number's text alone.
#[verifier::external_body]
pub(crate) fn select(locale: &str, rule_type: PluralRuleType, number: &str) -> (selection:
    Selection)
    ensures
        selection == plural_selection(locale@, rule_type, number@),
        selection is UnknownLocale <==> !supported_locales(rule_type).contains(locale@),
{
    let prt = match rule_type {
        PluralRuleType::Ordinal => intl_pluralrules::PluralRuleType::ORDINAL,
        PluralRuleType::Cardinal => intl_pluralrules::PluralRuleType::CARDINAL,
    };
    let Ok(rules) = IntlPluralRules::create(locale, prt) else { return Selection::UnknownLocale };
    match rules.select(number) {
        Ok(intl_pluralrules::PluralCategory::ZERO) => Selection::Category(PluralCategory::Zero),
        Ok(intl_pluralrules::PluralCategory::ONE) => Selection::Category(PluralCategory::One),
        Ok(intl_pluralrules::PluralCategory::TWO) => Selection::Category(PluralCategory::Two),
        Ok(intl_pluralrules::PluralCategory::FEW) => Selection::Category(PluralCategory::Few),
        Ok(intl_pluralrules::PluralCategory::MANY) => Selection::Category(PluralCategory::Many),
        Ok(intl_pluralrules::PluralCategory::OTHER) => Selection::Category(PluralCategory::Other),
        Err(_) => Selection::NotANumber,
    }
}

} // verus!
