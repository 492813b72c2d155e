//! Reading the number typed at the preset menu.
use vstd::prelude::*;
use crate::preset::{Preset, preset_order};
use crate::text::{trim_whitespace, trimmed_chars};

verus! {

/// Whether `c` is one of the ASCII digits `0`..`9`.
pub open spec fn is_ascii_digit(c: char) -> bool {
    '0' <= c && c <= '9'
}

/// The number written in decimal by the digits `s`.
pub open spec fn digits_value(s: Seq<char>) -> nat
    decreases s.len(),
{
    if s.len() == 0 {
        0
    } else {
        digits_value(s.drop_last()) * 10 + ((s.last() as nat) - 48) as nat
    }
}

/// The digits of `s` once one leading `+` is dropped.
pub open spec fn unsigned_digits(s: Seq<char>) -> Seq<char> {
    if s.len() > 0 && s[0] == '+' {
        s.drop_first()
    } else {
        s
    }
}

/// `s` read as an unsigned decimal number in the way `usize::from_str` reads
/// it: an optional `+`, then at least one ASCII digit and nothing else, with a
/// value that fits in `usize`.
pub open spec fn parse_usize(s: Seq<char>) -> Option<usize> {
    let d = unsigned_digits(s);
    if d.len() > 0 && (forall|i: int| 0 <= i < d.len() ==> is_ascii_digit(#[trigger] d[i]))
        && digits_value(d) <= usize::MAX {
        Some(digits_value(d) as usize)
    } else {
        None
    }
}

/// Why a menu answer was refused.
#[derive(Debug, Clone, Copy, PartialEq, Eq, Structural)]
pub enum ChoiceError {
    /// The answer is not a number.
    NotANumber,
    /// The number is not the number of a menu entry.
    OutOfRange(usize),
}

/// The outcome of the answer `input` to a menu of `count` entries: the
/// 1-based number typed, white space around it ignored.
pub open spec fn spec_menu_choice(input: Seq<char>, count: nat) -> Result<usize, ChoiceError> {
    match parse_usize(trim_whitespace(input)) {
        None => Err(ChoiceError::NotANumber),
        Some(n) => if n < 1 || n > count {
            Err(ChoiceError::OutOfRange(n))
        } else {
            Ok(n)
        },
    }
}

proof fn lemma_digits_value_prefix(s: Seq<char>, k: int)
    requires
        0 <= k <= s.len(),
    ensures
        digits_value(s.take(k)) <= digits_value(s),
    decreases s.len(),
{
    if k < s.len() {
        assert(s.drop_last().take(k) =~= s.take(k));
        lemma_digits_value_prefix(s.drop_last(), k);
    } else {
        assert(s.take(k) =~= s);
    }
}

/// Reads `s` as `usize::from_str` does (after white space is trimmed by the
/// caller).
pub fn parse_usize_chars(s: &[char]) -> (res: Option<usize>)
    ensures
        res == parse_usize(s@),
{
    let start: usize = if s.len() > 0 && s[0] == '+' { 1 } else { 0 };
    let ghost d = unsigned_digits(s@);
    assert(d =~= s@.skip(start as int));
    if start >= s.len() {
        return None;
    }
    let mut acc: usize = 0;
    let mut i: usize = start;
    while i < s.len()
        invariant
            d == s@.skip(start as int),
            d == unsigned_digits(s@),
            start <= i <= s.len(),
            forall|j: int| 0 <= j < i - start ==> is_ascii_digit(#[trigger] d[j]),
            acc == digits_value(d.take(i - start)),
        decreases s.len() - i,
    {
        let c = s[i];
        if !('0' <= c && c <= '9') {
            assert(d[i - start] == c);
            return None;
        }
        let digit = ((c as u32) - 48) as usize;
        proof {
            assert(d.take(i - start + 1).drop_last() =~= d.take(i - start));
            assert(d.take(i - start + 1).last() == c);
        }
        match acc.checked_mul(10) {
            None => {
                proof {
                    lemma_digits_value_prefix(d, i - start + 1);
                }
                return None;
            },
            Some(m) => match m.checked_add(digit) {
                None => {
                    proof {
                        lemma_digits_value_prefix(d, i - start + 1);
                    }
                    return None;
                },
                Some(v) => {
                    acc = v;
                },
            },
        }
        i = i + 1;
    }
    assert(d.take(d.len() as int) =~= d);
    Some(acc)
}

/// The 1-based number of the menu entry chosen by the answer `input` to a
/// menu of `count` entries.
pub fn menu_choice(input: &str, count: usize) -> (res: Result<usize, ChoiceError>)
    ensures
        res == spec_menu_choice(input@, count as nat),
{
    let t = trimmed_chars(input);
    match parse_usize_chars(t.as_slice()) {
        None => Err(ChoiceError::NotANumber),
        Some(n) => if n < 1 || n > count {
            Err(ChoiceError::OutOfRange(n))
        } else {
            Ok(n)
        },
    }
}

/// The preset chosen by the answer `input` at the preset menu.
pub fn preset_choice(input: &str) -> (res: Result<Preset, ChoiceError>)
    ensures
        match spec_menu_choice(input@, preset_order().len()) {
            Ok(n) => res == Ok::<Preset, ChoiceError>(preset_order()[n - 1]),
            Err(e) => res == Err::<Preset, ChoiceError>(e),
        },
{
    let all = Preset::all();
    match menu_choice(input, all.len()) {
        Ok(n) => Ok(all[n - 1]),
        Err(e) => Err(e),
    }
}

} // verus!
