//! The watermark and its marker text.
//!
//! The watermark is the highest source message identifier known to be
//! mirrored. It is never stored locally: every message published by the
//! backfill scan carries the caption `id=<N>`, and the watermark is read back
//! from the most recent such caption in the destination.

use crate::text::{decimal, decimal_text, digit_char, signed_decimal};
use vstd::prelude::*;

verus! {

/// The literal prefix of a marker, the `=` included.
pub open spec fn marker_prefix() -> Seq<char> {
    seq!['i', 'd', '=']
}

/// The marker text of a message identifier: `id=` and the identifier in decimal.
pub open spec fn marker_text(id: int) -> Seq<char> {
    marker_prefix() + signed_decimal(id)
}

/// Whether `c` is a decimal digit.
pub open spec fn is_digit(c: char) -> bool {
    48 <= c as u32 <= 57
}

/// Whether every character of `s` is a decimal digit.
pub open spec fn all_digits(s: Seq<char>) -> bool {
    forall|i: int| 0 <= i < s.len() ==> is_digit(#[trigger] s[i])
}

/// The number that a sequence of decimal digits denotes; leading zeros count
/// for nothing.
pub open spec fn digits_value(s: Seq<char>) -> nat
    decreases s.len(),
{
    if s.len() == 0 {
        0
    } else {
        (digits_value(s.drop_last()) * 10 + (s.last() as u32 - 48)) as nat
    }
}

/// The position of the first `=` of `s` at or after `from`, or the length of
/// `s` where there is none.
pub open spec fn find_equals(s: Seq<char>, from: int) -> int
    decreases s.len() - from,
{
    if from < 0 || from >= s.len() {
        s.len() as int
    } else if s[from] == '=' {
        from
    } else {
        find_equals(s, from + 1)
    }
}

/// The field of a text that holds the identifier: what stands between its
/// first `=` and the next one, or the end of the text. A text without `=` has
/// no field.
pub open spec fn marker_field(text: Seq<char>) -> Option<Seq<char>> {
    let start = find_equals(text, 0);
    if start >= text.len() {
        None
    } else {
        Some(text.subrange(start + 1, find_equals(text, start + 1)))
    }
}

/// The watermark that a text carries. It is the number in the text's field
/// where that field is one or more decimal digits and nothing else (a sign is
/// no digit) and the number fits a message identifier. Every other text
/// carries the zero watermark.
pub open spec fn decode_marker(text: Seq<char>) -> int {
    match marker_field(text) {
        Some(field) => if field.len() > 0 && all_digits(field) && digits_value(field)
            <= i32::MAX {
            digits_value(field) as int
        } else {
            0
        },
        None => 0,
    }
}

/// The watermark recovered from the most recent marker message of the
/// destination: zero where there is none.
pub open spec fn recovered_watermark(latest: Option<Seq<char>>) -> int {
    match latest {
        Some(text) => decode_marker(text),
        None => 0,
    }
}

proof fn lemma_find_equals_is_first(s: Seq<char>, from: int, at: int)
    requires
        0 <= from <= at <= s.len(),
        forall|k: int| from <= k < at ==> s[k] != '=',
        at < s.len() ==> s[at] == '=',
    ensures
        find_equals(s, from) == at,
    decreases at - from,
{
    if from < at {
        lemma_find_equals_is_first(s, from + 1, at);
    }
}

proof fn lemma_digits_value_prefix(s: Seq<char>, k: int)
    requires
        0 <= k <= s.len(),
        all_digits(s),
    ensures
        digits_value(s.subrange(0, k)) <= digits_value(s),
    decreases s.len(),
{
    if k == s.len() {
        assert(s.subrange(0, k) =~= s);
    } else {
        let shorter = s.drop_last();
        assert(shorter.subrange(0, k) =~= s.subrange(0, k));
        assert(all_digits(shorter)) by {
            assert forall|i: int| 0 <= i < shorter.len() implies is_digit(
                #[trigger] shorter[i],
            ) by {
                assert(shorter[i] == s[i]);
            }
        }
        lemma_digits_value_prefix(shorter, k);
        assert(is_digit(s[s.len() - 1]));
    }
}

proof fn lemma_decimal_digits(n: nat)
    ensures
        decimal(n).len() > 0,
        all_digits(decimal(n)),
        digits_value(decimal(n)) == n,
    decreases n,
{
    if n < 10 {
        let s = decimal(n);
        assert(s.len() == 1);
        assert(s[0] == digit_char(n as int));
        assert(s.drop_last() =~= Seq::<char>::empty());
        assert(digits_value(s.drop_last()) == 0);
        assert(s.last() as u32 - 48 == n);
    } else {
        lemma_decimal_digits(n / 10);
        let head = decimal(n / 10);
        let s = decimal(n);
        assert(s == head.push(digit_char((n % 10) as int)));
        assert(s.drop_last() =~= head);
        assert(s.last() as u32 - 48 == n % 10);
        assert(all_digits(s)) by {
            assert forall|i: int| 0 <= i < s.len() implies is_digit(#[trigger] s[i]) by {
                if i < head.len() {
                    assert(s[i] == head[i]);
                }
            }
        }
    }
}

/// The marker of a non-negative identifier decodes to that identifier.
pub proof fn marker_round_trip(id: i32)
    requires
        id >= 0,
    ensures
        decode_marker(marker_text(id as int)) == id,
{
    let digits = decimal(id as nat);
    let text = marker_text(id as int);
    lemma_decimal_digits(id as nat);
    assert(text =~= marker_prefix() + digits);
    assert(text[0] == 'i' && text[1] == 'd' && text[2] == '=');
    lemma_find_equals_is_first(text, 0, 2);
    assert forall|k: int| 3 <= k < text.len() implies text[k] != '=' by {
        assert(text[k] == digits[k - 3]);
        assert(is_digit(digits[k - 3]));
    }
    lemma_find_equals_is_first(text, 3, text.len() as int);
    assert(text.subrange(3, text.len() as int) =~= digits);
}

/// The caption to attach to the mirrored copy of message `id`, so that a later
/// recovery finds it.
pub fn encode(id: i32) -> (caption: String)
    ensures
        caption@ == marker_text(id as int),
{
    let mut caption = String::new();
    caption.push('i');
    caption.push('d');
    caption.push('=');
    let digits = decimal_text(id as i64);
    caption.append(digits.as_str());
    proof {
        assert(caption@ =~= marker_text(id as int));
    }
    caption
}

fn find_equals_from(text: &str, from: usize) -> (at: usize)
    requires
        from <= text@.len(),
    ensures
        at == find_equals(text@, from as int),
        from <= at <= text@.len(),
{
    let n: usize = text.unicode_len();
    let mut i: usize = from;
    while i < n
        invariant
            from <= i <= n,
            n == text@.len(),
            forall|k: int| from <= k < i ==> text@[k] != '=',
        decreases n - i,
    {
        if text.get_char(i) == '=' {
            proof {
                lemma_find_equals_is_first(text@, from as int, i as int);
            }
            return i;
        }
        i += 1;
    }
    proof {
        lemma_find_equals_is_first(text@, from as int, n as int);
    }
    n
}

/// Reads the watermark out of a text: see [`decode_marker`]. A malformed text
/// is no error; it gives zero.
pub fn decode(text: &str) -> (watermark: i32)
    ensures
        watermark == decode_marker(text@),
        watermark >= 0,
{
    let n: usize = text.unicode_len();
    let start: usize = find_equals_from(text, 0);
    if start >= n {
        return 0;
    }
    let end: usize = find_equals_from(text, start + 1);
    let ghost field = text@.subrange(start + 1, end as int);
    if start + 1 == end {
        return 0;
    }
    assert(marker_field(text@) == Some(field));
    let mut value: i64 = 0;
    let mut i: usize = start + 1;
    while i < end
        invariant
            start + 1 <= i <= end <= n,
            n == text@.len(),
            field == text@.subrange(start + 1, end as int),
            marker_field(text@) == Some(field),
            all_digits(field.subrange(0, i - (start + 1))),
            value == digits_value(field.subrange(0, i - (start + 1))),
            0 <= value <= i32::MAX,
        decreases end - i,
    {
        let c: char = text.get_char(i);
        let code: u32 = c as u32;
        let ghost at = i - (start + 1);
        proof {
            assert(field[at] == c);
            assert(field.subrange(0, at + 1).drop_last() =~= field.subrange(0, at));
            assert(field.subrange(0, at + 1).last() == c);
        }
        if code < 48 || code > 57 {
            proof {
                assert(!is_digit(field[at]));
            }
            return 0;
        }
        let next: i64 = value * 10 + (code as i64 - 48);
        proof {
            assert(next == digits_value(field.subrange(0, at + 1)));
            assert(all_digits(field.subrange(0, at + 1))) by {
                assert forall|k: int| 0 <= k < at + 1 implies is_digit(
                    #[trigger] field.subrange(0, at + 1)[k],
                ) by {
                    if k < at {
                        assert(field.subrange(0, at)[k] == field.subrange(0, at + 1)[k]);
                    }
                }
            }
        }
        if next > 2147483647 {
            proof {
                if all_digits(field) {
                    lemma_digits_value_prefix(field, at + 1);
                }
            }
            return 0;
        }
        value = next;
        i += 1;
    }
    proof {
        assert(field.subrange(0, end - (start + 1)) =~= field);
    }
    value as i32
}

/// The watermark to resume from, given the text of the most recent message of
/// the destination that matched the marker search, if there was one. Absence
/// and malformed text both give zero: mirror from the beginning.
pub fn recover(latest: Option<&str>) -> (watermark: i32)
    ensures
        watermark == recovered_watermark(
            match latest {
                Some(text) => Some(text@),
                None => None,
            },
        ),
        watermark >= 0,
{
    match latest {
        Some(text) => decode(text),
        None => 0,
    }
}

} // verus!
