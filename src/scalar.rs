//! Scalar coercion: what the text of a scalar event stands for.
use vstd::prelude::*;
use vstd::string::*;

use crate::error::ValueKind;
use crate::event::ScalarStyle;
use crate::text::text_is;

verus! {

/// A coerced scalar.
#[derive(Debug, PartialEq, Eq)]
pub enum Scalar {
    Str(String),
    Int(i64),
    Bool(bool),
    Null,
}

/// The mathematical value of a [`Scalar`].
pub enum ScalarModel {
    Str(Seq<char>),
    Int(int),
    Bool(bool),
    Null,
}

impl View for Scalar {
    type V = ScalarModel;

    open spec fn view(&self) -> ScalarModel {
        match self {
            Scalar::Str(s) => ScalarModel::Str(s@),
            Scalar::Int(n) => ScalarModel::Int(*n as int),
            Scalar::Bool(b) => ScalarModel::Bool(*b),
            Scalar::Null => ScalarModel::Null,
        }
    }
}

pub open spec fn is_digit(c: char) -> bool {
    '0' <= c <= '9'
}

pub open spec fn digit_value(c: char) -> nat {
    (c as u32 - '0' as u32) as nat
}

pub open spec fn all_digits(s: Seq<char>) -> bool {
    forall|i: int| 0 <= i < s.len() ==> is_digit(#[trigger] s[i])
}

/// The number that a string of decimal digits spells.
pub open spec fn digits_value(s: Seq<char>) -> nat
    decreases s.len(),
{
    if s.len() == 0 {
        0
    } else {
        digits_value(s.drop_last()) * 10 + digit_value(s.last())
    }
}

/// Whether `s` is `word` in any mix of cases; `word` is written in lower-case
/// ASCII letters.
pub open spec fn is_word_ci(s: Seq<char>, word: Seq<char>) -> bool {
    &&& s.len() == word.len()
    &&& forall|i: int|
        0 <= i < s.len() ==> #[trigger] s[i] == word[i] || s[i] as u32 + 32 == word[i] as u32
}

/// A null scalar: empty, `~`, `null`, `Null` or `NULL`.
pub open spec fn is_null_text(s: Seq<char>) -> bool {
    s.len() == 0 || s == "~"@ || s == "null"@ || s == "Null"@ || s == "NULL"@
}

/// The integer that `s` spells: an optional sign, then decimal digits with no
/// leading zero unless the digits are a single `0`, within the range of `i64`.
pub open spec fn int_of_text(s: Seq<char>) -> Option<int> {
    let signed = s.len() > 0 && (s[0] == '-' || s[0] == '+');
    let d = if signed { s.skip(1) } else { s };
    let v = if s.len() > 0 && s[0] == '-' { -digits_value(d) } else { digits_value(d) as int };
    if d.len() > 0 && all_digits(d) && (d.len() == 1 || d[0] != '0') && i64::MIN <= v
        <= i64::MAX {
        Some(v)
    } else {
        None
    }
}

/// What a scalar with text `s` written in `style` stands for. Only plain
/// scalars are resolved; every other style is text, kept verbatim.
pub open spec fn coerce_spec(s: Seq<char>, style: ScalarStyle) -> ScalarModel {
    if style != ScalarStyle::Plain {
        ScalarModel::Str(s)
    } else if is_null_text(s) {
        ScalarModel::Null
    } else if is_word_ci(s, "true"@) {
        ScalarModel::Bool(true)
    } else if is_word_ci(s, "false"@) {
        ScalarModel::Bool(false)
    } else if int_of_text(s) is Some {
        ScalarModel::Int(int_of_text(s)->0)
    } else {
        ScalarModel::Str(s)
    }
}

pub open spec fn scalar_kind(m: ScalarModel) -> ValueKind {
    match m {
        ScalarModel::Str(_) => ValueKind::Str,
        ScalarModel::Int(_) => ValueKind::Int,
        ScalarModel::Bool(_) => ValueKind::Bool,
        ScalarModel::Null => ValueKind::Null,
    }
}

proof fn lemma_digits_prefix(s: Seq<char>, k: int)
    requires
        all_digits(s),
        0 <= k <= s.len(),
    ensures
        digits_value(s.take(k)) <= digits_value(s),
    decreases s.len(),
{
    if k < s.len() {
        assert(s.drop_last().take(k) =~= s.take(k));
        assert(all_digits(s.drop_last())) by {
            assert forall|i: int| 0 <= i < s.drop_last().len() implies is_digit(
                #[trigger] s.drop_last()[i],
            ) by {
                assert(s.drop_last()[i] == s[i]);
            }
        }
        lemma_digits_prefix(s.drop_last(), k);
    } else {
        assert(s.take(k) =~= s);
    }
}

/// The value of the digits of `s` from `start` on, if they are all digits, there
/// is at least one, and the value is at most `limit`.
pub fn parse_digits(s: &str, start: usize, limit: u64) -> (r: Option<u64>)
    requires
        start <= s@.len(),
    ensures
        ({
            let d = s@.skip(start as int);
            r == if d.len() > 0 && all_digits(d) && digits_value(d) <= limit {
                Some(digits_value(d) as u64)
            } else {
                None
            }
        }),
{
    let n = s.unicode_len();
    let ghost d = s@.skip(start as int);
    if start == n {
        return None;
    }
    let mut acc: u64 = 0;
    let mut i: usize = start;
    while i < n
        invariant
            n == s@.len(),
            d == s@.skip(start as int),
            start < n,
            start <= i <= n,
            acc as nat == digits_value(s@.subrange(start as int, i as int)),
            acc <= limit,
            forall|j: int| start <= j < i ==> is_digit(#[trigger] s@[j]),
        decreases n - i,
    {
        let c = s.get_char(i);
        if !('0' <= c && c <= '9') {
            assert(!is_digit(d[i - start]));
            return None;
        }
        let v: u64 = (c as u32 - '0' as u32) as u64;
        let ghost pre = s@.subrange(start as int, i as int);
        let ghost next = s@.subrange(start as int, i + 1);
        assert(next.drop_last() =~= pre);
        assert(digits_value(next) == digits_value(pre) * 10 + v);
        if v > limit || acc > (limit - v) / 10 {
            assert(acc * 10 + v > limit) by (nonlinear_arith)
                requires
                    v > limit || acc > (limit - v) / 10,
                    v <= limit ==> (limit - v) / 10 * 10 <= limit - v,
                    acc >= 0,
            ;
            proof {
                if all_digits(d) {
                    assert(d.take(i + 1 - start) =~= next);
                    lemma_digits_prefix(d, i + 1 - start);
                }
            }
            return None;
        }
        assert(acc * 10 + v <= limit) by (nonlinear_arith)
            requires
                acc <= (limit - v) / 10,
                v <= limit,
        ;
        acc = acc * 10 + v;
        i = i + 1;
    }
    assert(s@.subrange(start as int, n as int) =~= d);
    assert(all_digits(d)) by {
        assert forall|j: int| 0 <= j < d.len() implies is_digit(#[trigger] d[j]) by {
            assert(d[j] == s@[j + start]);
        }
    }
    Some(acc)
}

/// Whether `s` is `word` in any mix of cases; `word` is written in lower-case
/// ASCII letters.
fn word_ci(s: &str, word: &str) -> (r: bool)
    ensures
        r == is_word_ci(s@, word@),
{
    let n = s.unicode_len();
    if n != word.unicode_len() {
        return false;
    }
    let mut i: usize = 0;
    while i < n
        invariant
            n == s@.len(),
            n == word@.len(),
            i <= n,
            forall|j: int|
                0 <= j < i ==> #[trigger] s@[j] == word@[j] || s@[j] as u32 + 32 == word@[j] as u32,
        decreases n - i,
    {
        let c = s.get_char(i);
        let w = word.get_char(i);
        if !(c == w || c as u32 + 32 == w as u32) {
            return false;
        }
        i = i + 1;
    }
    true
}

fn int_text(s: &str) -> (r: Option<i64>)
    ensures
        r matches Some(v) ==> int_of_text(s@) == Some(v as int),
        r is None ==> int_of_text(s@) is None,
{
    let n = s.unicode_len();
    let mut start: usize = 0;
    let mut neg = false;
    if n > 0 {
        let c = s.get_char(0);
        if c == '-' || c == '+' {
            start = 1;
            neg = c == '-';
        }
    }
    let ghost d = s@.skip(start as int);
    assert(start == 0 ==> d =~= s@);
    if start == n {
        return None;
    }
    if n - start > 1 && s.get_char(start) == '0' {
        return None;
    }
    let limit: u64 = if neg { 0x8000_0000_0000_0000 } else { 0x7fff_ffff_ffff_ffff };
    match parse_digits(s, start, limit) {
        None => {
            None
        },
        Some(v) => {
            if neg {
                if v == 0x8000_0000_0000_0000 {
                    Some(i64::MIN)
                } else {
                    Some(-(v as i64))
                }
            } else {
                Some(v as i64)
            }
        },
    }
}

/// Coerces the text of a scalar event written in `style`.
pub fn coerce(s: &str, style: ScalarStyle) -> (r: Scalar)
    ensures
        r@ == coerce_spec(s@, style),
{
    if style != ScalarStyle::Plain {
        return Scalar::Str(String::from_str(s));
    }
    if s.unicode_len() == 0 || text_is(s, "~") || text_is(s, "null") || text_is(s, "Null") || text_is(
        s,
        "NULL",
    ) {
        return Scalar::Null;
    }
    if word_ci(s, "true") {
        return Scalar::Bool(true);
    }
    if word_ci(s, "false") {
        return Scalar::Bool(false);
    }
    match int_text(s) {
        Some(v) => Scalar::Int(v),
        None => Scalar::Str(String::from_str(s)),
    }
}

} // verus!
