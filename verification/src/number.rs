//! The textual form of numbers: which texts denote a 64-bit float, and the
//! decimal text of a small integer.

use vstd::prelude::*;
use vstd::string::*;
use vstd::utf8::is_ascii_chars;
use crate::text::{ascii_bytes, spells_out};

verus! {

/// An ASCII decimal digit.
pub open spec fn is_digit(c: char) -> bool {
    '0' <= c && c <= '9'
}

/// A plus or minus sign.
pub open spec fn is_sign(c: char) -> bool {
    c == '+' || c == '-'
}

/// The index just past the run of digits of `s` that starts at `i`.
pub open spec fn digits_end(s: Seq<char>, i: int) -> int
    decreases s.len() - i,
{
    if 0 <= i < s.len() && is_digit(s[i]) {
        digits_end(s, i + 1)
    } else {
        i
    }
}

/// From `i` on, `s` is an exponent: `e` or `E`, an optional sign, and at least
/// one digit up to the end of `s`.
pub open spec fn is_exponent_at(s: Seq<char>, i: int) -> bool {
    let start = if i + 1 < s.len() && is_sign(s[i + 1]) {
        i + 2
    } else {
        i + 1
    };
    &&& 0 <= i < s.len()
    &&& (s[i] == 'e' || s[i] == 'E')
    &&& start < s.len()
    &&& digits_end(s, start) == s.len()
}

/// From `from` on, `s` is an unsigned decimal number: digits with at most one
/// point among them, at least one digit in all, and an optional exponent.
pub open spec fn is_decimal_at(s: Seq<char>, from: int) -> bool {
    let int_end = digits_end(s, from);
    let frac_start = if int_end < s.len() && s[int_end] == '.' {
        int_end + 1
    } else {
        int_end
    };
    let frac_end = digits_end(s, frac_start);
    &&& (int_end - from) + (frac_end - frac_start) > 0
    &&& (frac_end == s.len() || is_exponent_at(s, frac_end))
}

/// `c` is the lower-case letter `lower` or its upper-case form.
pub open spec fn is_letter(c: char, lower: char) -> bool {
    c == lower || c as int + 32 == lower as int
}

/// From `from` on, `s` spells `word`, which is in lower case, in any mix of
/// cases, and ends with it.
pub open spec fn spells_at(s: Seq<char>, from: int, word: Seq<char>) -> bool {
    &&& s.len() == from + word.len()
    &&& forall|i: int| 0 <= i < word.len() ==> is_letter(s[from + i], #[trigger] word[i])
}

/// From `from` on, `s` names an infinity or a value that is not a number.
pub open spec fn is_special_at(s: Seq<char>, from: int) -> bool {
    spells_at(s, from, seq!['i', 'n', 'f']) || spells_at(
        s,
        from,
        seq!['i', 'n', 'f', 'i', 'n', 'i', 't', 'y'],
    ) || spells_at(s, from, seq!['n', 'a', 'n'])
}

/// How many characters the sign of `s` takes: one or none.
pub open spec fn sign_len(s: Seq<char>) -> int {
    if s.len() > 0 && is_sign(s[0]) {
        1
    } else {
        0
    }
}

/// `s` denotes a 64-bit float: an optional sign followed by a decimal number
/// or by one of `inf`, `infinity` and `nan` in any mix of cases. Nothing may
/// stand before or after it, white space included.
pub open spec fn is_number_text(s: Seq<char>) -> bool {
    is_decimal_at(s, sign_len(s)) || is_special_at(s, sign_len(s))
}

/// No character lies below the first one.
proof fn lemma_char_range(c: char)
    ensures
        '\0' <= c,
{
}

/// A run of digits lies within the text and holds digits only.
pub proof fn lemma_digits_end(s: Seq<char>, i: int)
    requires
        0 <= i <= s.len(),
    ensures
        i <= digits_end(s, i) <= s.len(),
        forall|k: int| i <= k < digits_end(s, i) ==> is_digit(#[trigger] s[k]),
        digits_end(s, i) < s.len() ==> !is_digit(s[digits_end(s, i)]),
    decreases s.len() - i,
{
    if i < s.len() && is_digit(s[i]) {
        lemma_digits_end(s, i + 1);
    }
}

/// A text that denotes a number holds ASCII characters only.
pub proof fn lemma_number_text_is_ascii(s: Seq<char>)
    requires
        is_number_text(s),
    ensures
        is_ascii_chars(s),
{
    assert forall|k: int| 0 <= k < s.len() implies '\0' <= #[trigger] s[k] by {
        lemma_char_range(s[k]);
    }
    let from = sign_len(s);
    if is_decimal_at(s, from) {
        lemma_digits_end(s, from);
        let int_end = digits_end(s, from);
        let frac_start: int = if int_end < s.len() && s[int_end] == '.' {
            int_end + 1
        } else {
            int_end
        };
        lemma_digits_end(s, frac_start);
        let frac_end = digits_end(s, frac_start);
        if frac_end < s.len() {
            let start: int = if frac_end + 1 < s.len() && is_sign(s[frac_end + 1]) {
                frac_end + 2
            } else {
                frac_end + 1
            };
            lemma_digits_end(s, start);
        }
    } else {
        assert forall|k: int| #![trigger s[k]] 0 <= k < s.len() implies s[k] <= '\u{7f}' by {
            if k >= from {
                let inf = seq!['i', 'n', 'f'];
                let infinity = seq!['i', 'n', 'f', 'i', 'n', 'i', 't', 'y'];
                let nan = seq!['n', 'a', 'n'];
                if spells_at(s, from, inf) {
                    assert(is_letter(s[from + (k - from)], inf[k - from]));
                } else if spells_at(s, from, infinity) {
                    assert(is_letter(s[from + (k - from)], infinity[k - from]));
                } else {
                    assert(is_letter(s[from + (k - from)], nan[k - from]));
                }
            }
        }
    }
}

/// The index just past the run of digits of `bytes` that starts at `i`.
fn scan_digits(bytes: &[u8], i: usize, Ghost(s): Ghost<Seq<char>>) -> (end: usize)
    requires
        spells_out(bytes@, s),
        i <= bytes.len(),
    ensures
        end == digits_end(s, i as int),
        i <= end <= bytes.len(),
{
    let mut end: usize = i;
    while end < bytes.len() && 48 <= bytes[end] && bytes[end] <= 57
        invariant
            spells_out(bytes@, s),
            i <= end <= bytes.len(),
            digits_end(s, i as int) == digits_end(s, end as int),
        decreases bytes.len() - end,
    {
        assert(is_digit(s[end as int]));
        end = end + 1;
    }
    assert(end < bytes.len() ==> !is_digit(s[end as int]));
    end
}

/// Whether `bytes` spells `word` from `from` on, in any mix of cases, and
/// ends with it.
fn spells_word(
    bytes: &[u8],
    from: usize,
    word: &[u8],
    Ghost(s): Ghost<Seq<char>>,
    Ghost(w): Ghost<Seq<char>>,
) -> (ok: bool)
    requires
        spells_out(bytes@, s),
        spells_out(word@, w),
        from <= bytes.len(),
        forall|i: int| #![trigger w[i]] 0 <= i < w.len() ==> 'a' <= w[i] <= 'z',
    ensures
        ok == spells_at(s, from as int, w),
{
    if bytes.len() - from != word.len() {
        return false;
    }
    let mut i: usize = 0;
    while i < word.len()
        invariant
            spells_out(bytes@, s),
            spells_out(word@, w),
            from + word.len() == bytes.len(),
            i <= word.len(),
            forall|k: int| #![trigger w[k]] 0 <= k < w.len() ==> 'a' <= w[k] <= 'z',
            forall|k: int| 0 <= k < i ==> is_letter(s[from + k], #[trigger] w[k]),
        decreases word.len() - i,
    {
        let c: u8 = bytes[from + i];
        let l: u8 = word[i];
        assert(s[from + i] == c as char && w[i as int] == l as char && 'a' <= w[i as int]);
        if !(c == l || c == l - 32) {
            assert(!is_letter(s[from + i], w[i as int]));
            return false;
        }
        assert(is_letter(s[from + i], w[i as int]));
        i = i + 1;
    }
    true
}

/// Whether `s` denotes a 64-bit float.
pub fn is_number(s: &str) -> (ok: bool)
    ensures
        ok == is_number_text(s@),
{
    if !s.is_ascii() {
        proof {
            if is_number_text(s@) {
                lemma_number_text_is_ascii(s@);
            }
        }
        return false;
    }
    let bytes = ascii_bytes(s);
    let n = bytes.len();
    let from: usize = if n > 0 && (bytes[0] == 43 || bytes[0] == 45) {
        1
    } else {
        0
    };
    assert(from == sign_len(s@));
    let int_end = scan_digits(bytes, from, Ghost(s@));
    let frac_start: usize = if int_end < n && bytes[int_end] == 46 {
        int_end + 1
    } else {
        int_end
    };
    let frac_end = scan_digits(bytes, frac_start, Ghost(s@));
    if (int_end - from) + (frac_end - frac_start) > 0 {
        if frac_end == n {
            return true;
        }
        if bytes[frac_end] == 101 || bytes[frac_end] == 69 {
            let start: usize = if frac_end + 1 < n && (bytes[frac_end + 1] == 43
                || bytes[frac_end + 1] == 45) {
                frac_end + 2
            } else {
                frac_end + 1
            };
            if start < n {
                let end = scan_digits(bytes, start, Ghost(s@));
                if end == n {
                    return true;
                }
            }
        }
    }
    assert(!is_decimal_at(s@, from as int));
    let inf: [u8; 3] = [105, 110, 102];
    let infinity: [u8; 8] = [105, 110, 102, 105, 110, 105, 116, 121];
    let nan: [u8; 3] = [110, 97, 110];
    let ghost inf_word = seq!['i', 'n', 'f'];
    let ghost infinity_word = seq!['i', 'n', 'f', 'i', 'n', 'i', 't', 'y'];
    let ghost nan_word = seq!['n', 'a', 'n'];
    let is_inf = spells_word(bytes, from, inf.as_slice(), Ghost(s@), Ghost(inf_word));
    let is_infinity = spells_word(
        bytes,
        from,
        infinity.as_slice(),
        Ghost(s@),
        Ghost(infinity_word),
    );
    let is_nan = spells_word(bytes, from, nan.as_slice(), Ghost(s@), Ghost(nan_word));
    is_inf || is_infinity || is_nan
}

/// The character of the digit `d`.
pub open spec fn digit_char(d: int) -> char {
    ('0' as int + d) as char
}

/// The decimal digits of `n`, the highest first, with no leading zero.
pub open spec fn decimal_text(n: nat) -> Seq<char>
    decreases n,
{
    if n < 10 {
        seq![digit_char(n as int)]
    } else {
        decimal_text(n / 10).push(digit_char((n % 10) as int))
    }
}

/// The decimal text of `n`: its digits, after a minus sign where it is
/// negative.
pub open spec fn integer_text(n: int) -> Seq<char> {
    if n < 0 {
        seq!['-'] + decimal_text((-n) as nat)
    } else {
        decimal_text(n as nat)
    }
}

/// The decimal digits of a number are digits, and there is at least one.
pub proof fn lemma_decimal_text_digits(n: nat)
    ensures
        decimal_text(n).len() > 0,
        forall|k: int| 0 <= k < decimal_text(n).len() ==> is_digit(#[trigger] decimal_text(n)[k]),
    decreases n,
{
    if n >= 10 {
        lemma_decimal_text_digits(n / 10);
    }
}

/// A text that holds digits only from `i` on is one run of digits from there.
pub proof fn lemma_digits_to_the_end(s: Seq<char>, i: int)
    requires
        0 <= i <= s.len(),
        forall|k: int| i <= k < s.len() ==> is_digit(#[trigger] s[k]),
    ensures
        digits_end(s, i) == s.len(),
    decreases s.len() - i,
{
    if i < s.len() {
        lemma_digits_to_the_end(s, i + 1);
    }
}

/// The decimal text of an integer denotes a number.
pub proof fn lemma_integer_text_is_number(n: int)
    ensures
        is_number_text(integer_text(n)),
{
    let s = integer_text(n);
    if n < 0 {
        lemma_decimal_text_digits((-n) as nat);
        assert(s[0] == '-');
        assert forall|k: int| 1 <= k < s.len() implies is_digit(#[trigger] s[k]) by {
            assert(s[k] == decimal_text((-n) as nat)[k - 1]);
        }
        lemma_digits_to_the_end(s, 1);
    } else {
        lemma_decimal_text_digits(n as nat);
        assert(is_digit(s[0]));
        lemma_digits_to_the_end(s, 0);
    }
}

/// The text of one digit.
fn digit_str(d: u8) -> (text: &'static str)
    requires
        d < 10,
    ensures
        text@ == seq![digit_char(d as int)],
{
    proof {
        reveal_strlit("0");
        reveal_strlit("1");
        reveal_strlit("2");
        reveal_strlit("3");
        reveal_strlit("4");
        reveal_strlit("5");
        reveal_strlit("6");
        reveal_strlit("7");
        reveal_strlit("8");
        reveal_strlit("9");
    }
    let text = match d {
        0 => "0",
        1 => "1",
        2 => "2",
        3 => "3",
        4 => "4",
        5 => "5",
        6 => "6",
        7 => "7",
        8 => "8",
        _ => "9",
    };
    assert(text@ =~= seq![digit_char(d as int)]);
    text
}

/// The decimal text of a small integer.
pub fn small_integer_text(n: i8) -> (text: String)
    ensures
        text@ == integer_text(n as int),
{
    let mut text = String::new();
    let wide: i16 = n as i16;
    let magnitude: u8 = if wide < 0 {
        proof {
            reveal_strlit("-");
        }
        text.append("-");
        (-wide) as u8
    } else {
        wide as u8
    };
    let ghost sign = text@;
    assert(sign =~= if n < 0 { seq!['-'] } else { Seq::<char>::empty() });
    assert(magnitude as int == if n < 0 { -(n as int) } else { n as int });
    if magnitude >= 100 {
        text.append(digit_str(magnitude / 100));
    }
    if magnitude >= 10 {
        text.append(digit_str((magnitude / 10) % 10));
    }
    text.append(digit_str(magnitude % 10));
    proof {
        let m = magnitude as nat;
        reveal_with_fuel(decimal_text, 3);
        assert(text@ =~= sign + decimal_text(m));
        assert(text@ =~= integer_text(n as int));
    }
    text
}

} // verus!
