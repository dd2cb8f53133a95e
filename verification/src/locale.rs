//! Locale tags, as far as negotiation needs to look at them.

use vstd::prelude::*;
use vstd::string::*;
use vstd::utf8::is_ascii_chars;
use crate::text::{ascii_bytes, spells_out};

verus! {

/// A character that parts the subtags of a locale tag.
pub open spec fn is_separator(c: char) -> bool {
    c == '-' || c == '_'
}

/// The index at which the subtag that starts at `i` ends: that of the next
/// separator, or the length of the tag.
pub open spec fn subtag_end(tag: Seq<char>, i: int) -> int
    decreases tag.len() - i,
{
    if 0 <= i < tag.len() && !is_separator(tag[i]) {
        subtag_end(tag, i + 1)
    } else {
        i
    }
}

/// Where the first subtag of a single character starts, among the subtags
/// from the one that starts at `i` on.
pub open spec fn first_singleton(tag: Seq<char>, i: int) -> Option<int>
    decreases tag.len() + 1 - i,
    via first_singleton_decreases
{
    if 0 <= i <= tag.len() && subtag_end(tag, i) == i + 1 {
        Some(i)
    } else if 0 <= i <= tag.len() && subtag_end(tag, i) < tag.len() {
        first_singleton(tag, subtag_end(tag, i) + 1)
    } else {
        None
    }
}

/// A key that the negotiator knows in an extension.
pub open spec fn is_known_key(subtag: Seq<char>) -> bool {
    subtag == seq!['h', 'c'] || subtag == seq!['c', 'a']
}

/// Every key of an extension is known, where its first key starts at `i` and
/// keys and values take turns up to the end of the tag.
pub open spec fn keys_known(tag: Seq<char>, i: int) -> bool
    decreases tag.len() + 1 - i,
    via keys_known_decreases
{
    if 0 <= i <= tag.len() {
        let key_end = subtag_end(tag, i);
        let value_end = subtag_end(tag, key_end + 1);
        is_known_key(tag.subrange(i, key_end)) && (value_end >= tag.len() || keys_known(
            tag,
            value_end + 1,
        ))
    } else {
        true
    }
}

/// An ASCII letter.
pub open spec fn is_ascii_letter(c: char) -> bool {
    ('a' <= c && c <= 'z') || ('A' <= c && c <= 'Z')
}

/// Negotiation can take `tag`. It cannot where the first subtag of a single
/// character opens an extension with a key that the negotiator does not know:
/// there its parser stops the program. A tag that is not ASCII is no locale to
/// it, and a single `x` opens a private part, which it does not read.
pub open spec fn is_negotiable(tag: Seq<char>) -> bool {
    !is_ascii_chars(tag) || match first_singleton(tag, 0) {
        None => true,
        Some(i) => tag[i] == 'x' || !is_ascii_letter(tag[i]) || keys_known(tag, i + 2),
    }
}

/// Negotiation can take every tag of `tags`.
pub open spec fn all_negotiable(tags: Seq<Seq<char>>) -> bool {
    forall|k: int| 0 <= k < tags.len() ==> is_negotiable(#[trigger] tags[k])
}

/// A subtag lies within the tag.
pub proof fn lemma_subtag_end(tag: Seq<char>, i: int)
    requires
        0 <= i <= tag.len(),
    ensures
        i <= subtag_end(tag, i) <= tag.len(),
    decreases tag.len() - i,
{
    if i < tag.len() && !is_separator(tag[i]) {
        lemma_subtag_end(tag, i + 1);
    }
}

/// The search for a single character goes on past the subtag at `i`.
#[via_fn]
proof fn first_singleton_decreases(tag: Seq<char>, i: int) {
    if 0 <= i <= tag.len() {
        lemma_subtag_end(tag, i);
    }
}

/// The next key starts past the key at `i` and its value.
#[via_fn]
proof fn keys_known_decreases(tag: Seq<char>, i: int) {
    if 0 <= i <= tag.len() {
        lemma_subtag_end(tag, i);
        if subtag_end(tag, i) < tag.len() {
            lemma_subtag_end(tag, subtag_end(tag, i) + 1);
        }
    }
}

/// The index at which the subtag that starts at `i` ends.
fn scan_subtag(bytes: &[u8], i: usize, Ghost(tag): Ghost<Seq<char>>) -> (end: usize)
    requires
        spells_out(bytes@, tag),
        i <= bytes.len(),
    ensures
        end == subtag_end(tag, i as int),
        i <= end <= bytes.len(),
{
    let mut end: usize = i;
    while end < bytes.len() && bytes[end] != 45 && bytes[end] != 95
        invariant
            spells_out(bytes@, tag),
            i <= end <= bytes.len(),
            subtag_end(tag, i as int) == subtag_end(tag, end as int),
        decreases bytes.len() - end,
    {
        assert(!is_separator(tag[end as int]));
        end = end + 1;
    }
    assert(end < bytes.len() ==> is_separator(tag[end as int]));
    end
}

/// Where the first subtag of a single character starts.
fn find_singleton(bytes: &[u8], Ghost(tag): Ghost<Seq<char>>) -> (found: Option<usize>)
    requires
        spells_out(bytes@, tag),
    ensures
        found is Some <==> first_singleton(tag, 0) is Some,
        found matches Some(i) ==> first_singleton(tag, 0) == Some(i as int) && i < bytes.len(),
{
    let mut i: usize = 0;
    loop
        invariant
            spells_out(bytes@, tag),
            i <= bytes.len(),
            first_singleton(tag, 0) == first_singleton(tag, i as int),
        decreases bytes.len() - i,
    {
        let end = scan_subtag(bytes, i, Ghost(tag));
        if end - i == 1 {
            return Some(i);
        }
        if end == bytes.len() {
            return None;
        }
        i = end + 1;
    }
}

/// Whether every key of the extension whose first key starts at `from` is
/// known; no key starts past the end of the tag.
fn check_keys(bytes: &[u8], from: usize, Ghost(tag): Ghost<Seq<char>>) -> (known: bool)
    requires
        spells_out(bytes@, tag),
        from <= bytes.len(),
    ensures
        known == keys_known(tag, from as int),
{
    let mut i: usize = from;
    loop
        invariant
            spells_out(bytes@, tag),
            i <= bytes.len(),
            keys_known(tag, from as int) == keys_known(tag, i as int),
        decreases bytes.len() - i,
    {
        let key_end = scan_subtag(bytes, i, Ghost(tag));
        let known = key_end - i == 2 && ((bytes[i] == 104 && bytes[i + 1] == 99) || (bytes[i]
            == 99 && bytes[i + 1] == 97));
        proof {
            let key = tag.subrange(i as int, key_end as int);
            if known {
                assert(key[0] == tag[i as int] && key[1] == tag[i + 1]);
                assert(key =~= seq!['h', 'c'] || key =~= seq!['c', 'a']);
            } else if key.len() == 2 {
                assert(key[0] == tag[i as int] && key[1] == tag[i + 1]);
                assert(seq!['h', 'c'][0] == 'h' && seq!['h', 'c'][1] == 'c');
                assert(seq!['c', 'a'][0] == 'c' && seq!['c', 'a'][1] == 'a');
            } else {
                assert(seq!['h', 'c'].len() == 2 && seq!['c', 'a'].len() == 2);
            }
            assert(known == is_known_key(key));
        }
        if !known {
            return false;
        }
        if key_end == bytes.len() {
            return true;
        }
        let value_end = scan_subtag(bytes, key_end + 1, Ghost(tag));
        if value_end == bytes.len() {
            return true;
        }
        i = value_end + 1;
    }
}

/// Whether negotiation can take `tag`.
pub fn check_negotiable(tag: &str) -> (ok: bool)
    ensures
        ok == is_negotiable(tag@),
{
    if !tag.is_ascii() {
        return true;
    }
    let bytes = ascii_bytes(tag);
    match find_singleton(bytes, Ghost(tag@)) {
        None => true,
        Some(i) => {
            let c = bytes[i];
            assert(tag@[i as int] == c as char);
            if c == 120 || !((97 <= c && c <= 122) || (65 <= c && c <= 90)) {
                true
            } else if bytes.len() - i < 2 {
                true
            } else {
                check_keys(bytes, i + 2, Ghost(tag@))
            }
        },
    }
}

/// Whether negotiation can take every tag of `tags`.
pub fn check_all_negotiable(tags: &Vec<String>) -> (ok: bool)
    ensures
        ok == all_negotiable(tags.deep_view()),
{
    let mut k: usize = 0;
    while k < tags.len()
        invariant
            k <= tags.len(),
            forall|j: int| 0 <= j < k ==> is_negotiable(#[trigger] tags.deep_view()[j]),
        decreases tags.len() - k,
    {
        if !check_negotiable(tags[k].as_str()) {
            assert(!is_negotiable(tags.deep_view()[k as int]));
            return false;
        }
        assert(tags.deep_view()[k as int] == tags[k as int]@);
        k = k + 1;
    }
    true
}

/// How negotiation goes through the requested locales.
#[derive(Clone, Copy, Debug, PartialEq, Eq, Structural)]
pub enum NegotiationStrategy {
    /// Every available locale that matches any requested one.
    Filtering,
    /// The best available locale for each requested one.
    Matching,
    /// The best available locale for the first requested one that has any.
    Lookup,
}

/// The locales that negotiation picks from `available` for `requested`.
pub uninterp spec fn negotiated(
    requested: Seq<Seq<char>>,
    available: Seq<Seq<char>>,
    fallback: Seq<char>,
    strategy: NegotiationStrategy,
) -> Seq<Seq<char>>;

/// Calls `fluent_locale::negotiate_languages` with `fallback` as its default.
/// It is never left without a locale, since the default stands in where
/// nothing matched, and whatever it picks is the default or one of
/// `available`. Tags that are not negotiable are left out by `requires`: on
/// some of them the parser of `fluent_locale` stops the program.
#[verifier::external_body]
pub(crate) fn negotiate_languages(
    requested: &Vec<String>,
    available: &Vec<String>,
    fallback: &str,
    strategy: NegotiationStrategy,
) -> (locales: Vec<String>)
    requires
        all_negotiable(requested.deep_view()),
        all_negotiable(available.deep_view()),
    ensures
        locales.deep_view() == negotiated(
            requested.deep_view(),
            available.deep_view(),
            fallback@,
            strategy,
        ),
        locales.len() >= 1,
        forall|i: int|
            0 <= i < locales.len() ==> #[trigger] locales.deep_view()[i] == fallback@
                || available.deep_view().contains(locales.deep_view()[i]),
{
    let strategy = match strategy {
        NegotiationStrategy::Filtering => fluent_locale::NegotiationStrategy::Filtering,
        NegotiationStrategy::Matching => fluent_locale::NegotiationStrategy::Matching,
        NegotiationStrategy::Lookup => fluent_locale::NegotiationStrategy::Lookup,
    };
    let picked = fluent_locale::negotiate_languages(requested, available, Some(fallback), &strategy);
    picked.into_iter().map(String::from).collect()
}

} // verus!
