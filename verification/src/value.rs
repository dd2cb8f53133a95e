//! Values that can be formatted to text and matched against selector keys.

use vstd::prelude::*;
use vstd::string::*;
use vstd::pervasive::unreached;
use crate::context::MessageContext;
use crate::locale::{negotiate_languages, negotiated, NegotiationStrategy};
use crate::number::{
    integer_text, is_number, is_number_text, lemma_integer_text_is_number, small_integer_text,
};
use crate::plural::{
    category_of_key, get_locales, plural_selection, select, supported_locales, PluralCategory,
    PluralRuleType, Selection,
};

verus! {

/// A value of a message: text, or a number kept as the text it was given in.
#[derive(Clone, Debug, PartialEq)]
pub enum FluentValue {
    /// Text, which also serves as a selector key.
    String(String),
    /// The text of a number.
    Number(String),
}

/// The text given for a number does not denote one.
#[derive(Clone, Copy, Debug, PartialEq, Eq, Structural)]
pub struct InvalidNumber;

/// The locale whose plural rules apply where `requested` are the locales asked
/// for: the first that a lookup among the locales with cardinal rules gives,
/// with `en` to fall back on.
pub open spec fn plural_locale(requested: Seq<Seq<char>>) -> Seq<char> {
    negotiated(
        requested,
        supported_locales(PluralRuleType::Cardinal),
        "en"@,
        NegotiationStrategy::Lookup,
    )[0]
}

/// `key` names the plural category that the cardinal rules of the locale
/// negotiated for `requested` give to `number`.
pub open spec fn selects(key: Seq<char>, requested: Seq<Seq<char>>, number: Seq<char>) -> bool {
    match category_of_key(key) {
        Some(category) => plural_selection(
            plural_locale(requested),
            PluralRuleType::Cardinal,
            number,
        ) == Selection::Category(category),
        None => false,
    }
}

impl FluentValue {
    /// Whether the value is a number.
    pub open spec fn is_number(self) -> bool {
        self is Number
    }

    /// The text that the value holds.
    pub open spec fn text(self) -> Seq<char> {
        match self {
            FluentValue::String(s) => s@,
            FluentValue::Number(n) => n@,
        }
    }

    /// A number holds a text that denotes one.
    pub open spec fn well_formed(self) -> bool {
        self.is_number() ==> is_number_text(self.text())
    }

    /// What `matches` decides: texts match when they are equal, numbers when
    /// their texts are equal, a text matches a number whose plural category it
    /// names, and a number never matches a text.
    pub open spec fn matches_spec(self, requested: Seq<Seq<char>>, other: FluentValue) -> bool {
        if self.is_number() == other.is_number() {
            self.text() == other.text()
        } else {
            !self.is_number() && selects(self.text(), requested, other.text())
        }
    }

    /// The number that `v` denotes, kept as the text `v`, or an error where `v`
    /// denotes no number.
    pub fn as_number(v: &str) -> (value: Result<FluentValue, InvalidNumber>)
        ensures
            is_number_text(v@) ==> (value matches Ok(n) && n.is_number() && n.text() == v@
                && n.well_formed()),
            !is_number_text(v@) ==> value == Err::<FluentValue, InvalidNumber>(InvalidNumber),
    {
        if is_number(v) {
            Ok(FluentValue::Number(v.to_owned()))
        } else {
            Err(InvalidNumber)
        }
    }

    /// The text to display for the value: the text that it holds, as it is.
    pub fn format(&self, _ctx: &MessageContext) -> (text: String)
        ensures
            text@ == self.text(),
    {
        match self {
            FluentValue::String(s) => s.clone(),
            FluentValue::Number(n) => n.clone(),
        }
    }

    /// Whether the value, as a selector, matches `other` under the locales of
    /// `ctx`.
    pub fn matches(&self, ctx: &MessageContext, other: &FluentValue) -> (matched: bool)
        ensures
            matched == self.matches_spec(ctx@, *other),
    {
        match self {
            FluentValue::String(a) => match other {
                FluentValue::String(b) => *a == *b,
                FluentValue::Number(b) => {
                    let category = match PluralCategory::from_key(a.as_str()) {
                        Some(category) => category,
                        None => return false,
                    };
                    let available = get_locales(PluralRuleType::Cardinal);
                    let locales = negotiate_languages(
                        ctx.locales(),
                        &available,
                        "en",
                        NegotiationStrategy::Lookup,
                    );
                    assert(locales.deep_view()[0] == locales[0]@);
                    match select(locales[0].as_str(), PluralRuleType::Cardinal, b.as_str()) {
                        Selection::Category(found) => found == category,
                        Selection::NotANumber => false,
                        Selection::UnknownLocale => unreached(),
                    }
                },
            },
            FluentValue::Number(a) => match other {
                FluentValue::String(_) => false,
                FluentValue::Number(b) => *a == *b,
            },
        }
    }
}

impl From<String> for FluentValue {
    /// The text `s` as a value.
    fn from(s: String) -> (value: FluentValue) {
        FluentValue::String(s)
    }
}

impl vstd::std_specs::convert::FromSpecImpl<String> for FluentValue {
    open spec fn obeys_from_spec() -> bool {
        true
    }

    open spec fn from_spec(s: String) -> FluentValue {
        FluentValue::String(s)
    }
}

impl<'a> From<&'a str> for FluentValue {
    /// The text `s` as a value.
    fn from(s: &'a str) -> (value: FluentValue)
        ensures
            !value.is_number(),
            value.text() == s@,
    {
        FluentValue::String(s.to_owned())
    }
}

impl<'a> vstd::std_specs::convert::FromSpecImpl<&'a str> for FluentValue {
    open spec fn obeys_from_spec() -> bool {
        false
    }

    open spec fn from_spec(s: &'a str) -> FluentValue {
        arbitrary()
    }
}

impl From<i8> for FluentValue {
    /// The number `n` as a value, in decimal.
    fn from(n: i8) -> (value: FluentValue)
        ensures
            value.is_number(),
            value.text() == integer_text(n as int),
            value.well_formed(),
    {
        proof {
            lemma_integer_text_is_number(n as int);
        }
        FluentValue::Number(small_integer_text(n))
    }
}

impl vstd::std_specs::convert::FromSpecImpl<i8> for FluentValue {
    open spec fn obeys_from_spec() -> bool {
        false
    }

    open spec fn from_spec(n: i8) -> FluentValue {
        arbitrary()
    }
}

/// A text value formats to the text that it was made from.
pub proof fn law_text_round_trip(s: String, ctx: MessageContext, value: FluentValue, text: String)
    requires
        call_ensures(<FluentValue as From<String>>::from, (s,), value),
        call_ensures(FluentValue::format, (&value, &ctx), text),
    ensures
        text@ == s@,
{
}

/// A text that denotes a number is taken as a number, and the number formats
/// to that very text.
pub proof fn law_number_round_trip(
    v: &str,
    ctx: MessageContext,
    parsed: Result<FluentValue, InvalidNumber>,
    text: String,
)
    requires
        is_number_text(v@),
        call_ensures(FluentValue::as_number, (v,), parsed),
        parsed matches Ok(number) ==> call_ensures(FluentValue::format, (&number, &ctx), text),
    ensures
        parsed is Ok,
        text@ == v@,
{
}

/// A text that denotes no number is refused.
pub proof fn law_invalid_number_refused(v: &str, parsed: Result<FluentValue, InvalidNumber>)
    requires
        !is_number_text(v@),
        call_ensures(FluentValue::as_number, (v,), parsed),
    ensures
        parsed == Err::<FluentValue, InvalidNumber>(InvalidNumber),
{
}

/// A number matches no text, whatever the text and the locales.
pub proof fn law_number_never_matches_text(
    number: FluentValue,
    text: FluentValue,
    ctx: MessageContext,
    matched: bool,
)
    requires
        number.is_number(),
        !text.is_number(),
        call_ensures(FluentValue::matches, (&number, &ctx, &text), matched),
    ensures
        !matched,
{
}

/// Two texts match exactly when they are equal.
pub proof fn law_texts_match_when_equal(
    a: FluentValue,
    b: FluentValue,
    ctx: MessageContext,
    matched: bool,
)
    requires
        !a.is_number(),
        !b.is_number(),
        call_ensures(FluentValue::matches, (&a, &ctx, &b), matched),
    ensures
        matched == (a.text() == b.text()),
{
}

/// Two numbers match exactly when their texts are equal, whatever their
/// magnitudes.
pub proof fn law_numbers_match_by_text(
    a: FluentValue,
    b: FluentValue,
    ctx: MessageContext,
    matched: bool,
)
    requires
        a.is_number(),
        b.is_number(),
        call_ensures(FluentValue::matches, (&a, &ctx, &b), matched),
    ensures
        matched == (a.text() == b.text()),
{
}

/// A text that names no plural category matches no number.
pub proof fn law_unknown_key_matches_no_number(
    key: FluentValue,
    number: FluentValue,
    ctx: MessageContext,
    matched: bool,
)
    requires
        !key.is_number(),
        number.is_number(),
        category_of_key(key.text()) is None,
        call_ensures(FluentValue::matches, (&key, &ctx, &number), matched),
    ensures
        !matched,
{
}

} // verus!
