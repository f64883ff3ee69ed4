//! The action vocabulary the game consumes, and the parser that produces an
//! action from one line of free text. The scan works on the line's bytes:
//! tokens are runs of non-blank bytes, the first token picks the command
//! (one letter, case-insensitively), and the commands that act on a card
//! read a second token holding a 1-based position.

use vstd::prelude::*;

use vstd::string::StringSliceAdditionalSpecFns;

use crate::error::UiError;

verus! {

/// One player command. Indices are 0-based slot positions in the room.
#[derive(Debug, Clone, Copy, PartialEq, Eq, Structural)]
pub enum Action {
    Quit,
    Skip,
    PrintRules,
    Kill { index: usize },
    Heal { index: usize },
    Fight { index: usize },
    Equip { index: usize },
}

/// ASCII blanks: space, tab, line feed, vertical tab, form feed, return.
pub open spec fn is_blank(b: u8) -> bool {
    b == 32 || (9 <= b && b <= 13)
}

/// Lowers an ASCII capital letter; leaves every other byte alone.
pub open spec fn lower(b: u8) -> u8 {
    if 65 <= b && b <= 90 {
        (b + 32) as u8
    } else {
        b
    }
}

pub open spec fn is_digit(b: u8) -> bool {
    48 <= b && b <= 57
}

pub open spec fn all_digits(t: Seq<u8>) -> bool {
    forall|j: int| 0 <= j < t.len() ==> is_digit(#[trigger] t[j])
}

/// The first position at or after `i` holding a non-blank byte, or the end.
pub open spec fn skip_blanks(s: Seq<u8>, i: int) -> int
    recommends
        0 <= i <= s.len(),
    decreases s.len() - i,
{
    if i >= s.len() || !is_blank(s[i]) {
        i
    } else {
        skip_blanks(s, i + 1)
    }
}

/// The first position at or after `i` holding a blank, or the end: where the
/// token starting at `i` stops.
pub open spec fn token_end(s: Seq<u8>, i: int) -> int
    recommends
        0 <= i <= s.len(),
    decreases s.len() - i,
{
    if i >= s.len() || is_blank(s[i]) {
        i
    } else {
        token_end(s, i + 1)
    }
}

/// The number a run of decimal digits spells, most significant first.
pub open spec fn digits_value(t: Seq<u8>) -> int
    decreases t.len(),
{
    if t.len() == 0 {
        0
    } else {
        digits_value(t.drop_last()) * 10 + (t.last() - 48)
    }
}

/// What parsing the position token at or after `from` yields: no token left
/// is `MissingIndex`; a token that is not a number the machine can hold is
/// `InvalidIndex`; positions are 1-based, so 0 is `IndexStartsAtOne` and any
/// other number comes back lowered by one.
pub open spec fn spec_parse_index(s: Seq<u8>, from: int) -> Result<usize, UiError> {
    let a = skip_blanks(s, from);
    let b = token_end(s, a);
    let t = s.subrange(a, b);
    if a >= s.len() {
        Err(UiError::MissingIndex)
    } else if !all_digits(t) || digits_value(t) > usize::MAX {
        Err(UiError::InvalidIndex)
    } else if digits_value(t) == 0 {
        Err(UiError::IndexStartsAtOne)
    } else {
        Ok((digits_value(t) - 1) as usize)
    }
}

/// What parsing one input line yields. The first token must be a single
/// letter: q quits, s skips, r asks for the rules, and f, a, e, h fight,
/// kill, equip or heal the card at the position the second token names.
/// Anything after the tokens that are read is ignored.
pub open spec fn spec_parse_action(s: Seq<u8>) -> Result<Action, UiError> {
    let a = skip_blanks(s, 0);
    let b = token_end(s, a);
    if a >= s.len() {
        Err(UiError::EmptyInput)
    } else if b - a != 1 {
        Err(UiError::UnknownCommand)
    } else {
        let c = lower(s[a]);
        if c == 113 {  // q
            Ok(Action::Quit)
        } else if c == 115 {  // s
            Ok(Action::Skip)
        } else if c == 114 {  // r
            Ok(Action::PrintRules)
        } else if c == 102 {  // f
            match spec_parse_index(s, b) {
                Ok(index) => Ok(Action::Fight { index }),
                Err(e) => Err(e),
            }
        } else if c == 97 {  // a
            match spec_parse_index(s, b) {
                Ok(index) => Ok(Action::Kill { index }),
                Err(e) => Err(e),
            }
        } else if c == 101 {  // e
            match spec_parse_index(s, b) {
                Ok(index) => Ok(Action::Equip { index }),
                Err(e) => Err(e),
            }
        } else if c == 104 {  // h
            match spec_parse_index(s, b) {
                Ok(index) => Ok(Action::Heal { index }),
                Err(e) => Err(e),
            }
        } else {
            Err(UiError::UnknownCommand)
        }
    }
}

/// A digit run's value only grows as more digits follow.
proof fn lemma_digits_value_nonneg(t: Seq<u8>)
    requires
        all_digits(t),
    ensures
        digits_value(t) >= 0,
    decreases t.len(),
{
    if t.len() > 0 {
        assert(all_digits(t.drop_last()));
        lemma_digits_value_nonneg(t.drop_last());
    }
}

/// A prefix of a digit run never spells more than the whole run.
proof fn lemma_digits_value_prefix(t: Seq<u8>, i: int)
    requires
        all_digits(t),
        0 <= i <= t.len(),
    ensures
        digits_value(t.subrange(0, i)) <= digits_value(t),
    decreases t.len() - i,
{
    if i == t.len() {
        assert(t.subrange(0, i) =~= t);
    } else {
        assert(all_digits(t.drop_last()));
        assert(t.subrange(0, i) =~= t.drop_last().subrange(0, i));
        lemma_digits_value_prefix(t.drop_last(), i);
        lemma_digits_value_nonneg(t.drop_last());
    }
}

/// Scans forward from `from` to the first non-blank byte.
fn skip_blanks_at(s: &[u8], from: usize) -> (i: usize)
    requires
        from <= s@.len(),
    ensures
        i == skip_blanks(s@, from as int),
        from <= i <= s@.len(),
        i < s@.len() ==> !is_blank(s@[i as int]),
{
    let mut i = from;
    while i < s.len() && (s[i] == 32 || (9 <= s[i] && s[i] <= 13))
        invariant
            from <= i <= s@.len(),
            skip_blanks(s@, from as int) == skip_blanks(s@, i as int),
        decreases s@.len() - i,
    {
        i = i + 1;
    }
    i
}

/// Scans forward from `from` to the first blank byte.
fn token_end_at(s: &[u8], from: usize) -> (i: usize)
    requires
        from <= s@.len(),
    ensures
        i == token_end(s@, from as int),
        from <= i <= s@.len(),
        i < s@.len() ==> is_blank(s@[i as int]),
{
    let mut i = from;
    while i < s.len() && !(s[i] == 32 || (9 <= s[i] && s[i] <= 13))
        invariant
            from <= i <= s@.len(),
            token_end(s@, from as int) == token_end(s@, i as int),
        decreases s@.len() - i,
    {
        i = i + 1;
    }
    i
}

/// Reads the position token at or after `from`; see `spec_parse_index`.
fn parse_index(s: &[u8], from: usize) -> (r: Result<usize, UiError>)
    requires
        from <= s@.len(),
    ensures
        r == spec_parse_index(s@, from as int),
{
    let a = skip_blanks_at(s, from);
    if a >= s.len() {
        return Err(UiError::MissingIndex);
    }
    let b = token_end_at(s, a);

    let ghost t = s@.subrange(a as int, b as int);
    let mut value: usize = 0;
    let mut i = a;
    while i < b
        invariant
            from <= a <= i <= b,
            b <= s@.len(),
            a < s@.len(),
            a == skip_blanks(s@, from as int),
            b == token_end(s@, a as int),
            t == s@.subrange(a as int, b as int),
            all_digits(s@.subrange(a as int, i as int)),
            value == digits_value(s@.subrange(a as int, i as int)),
        decreases b - i,
    {
        let d = s[i];
        proof {
            assert(s@.subrange(a as int, i + 1).drop_last() =~= s@.subrange(a as int, i as int));
            assert(s@.subrange(a as int, i + 1).last() == s@[i as int]);
            assert(t[i - a] == s@[i as int]);
        }
        if !(48 <= d && d <= 57) {
            proof {
                assert(!is_digit(t[i - a]));
                assert(!all_digits(t));
            }
            return Err(UiError::InvalidIndex);
        }
        let dd = (d - 48) as usize;
        if value > (usize::MAX - dd) / 10 {
            proof {
                if all_digits(t) {
                    assert(t.subrange(0, i + 1 - a) =~= s@.subrange(a as int, i + 1));
                    lemma_digits_value_prefix(t, i + 1 - a);
                    assert(digits_value(s@.subrange(a as int, i + 1)) == value * 10 + dd);
                    assert(value * 10 + dd > usize::MAX) by {
                        assert(value >= (usize::MAX - dd) / 10 + 1);
                    }
                }
            }
            return Err(UiError::InvalidIndex);
        }
        value = value * 10 + dd;
        i = i + 1;
    }
    proof {
        assert(s@.subrange(a as int, b as int) =~= t);
    }

    if value == 0 {
        return Err(UiError::IndexStartsAtOne);
    }
    Ok(value - 1)
}

/// Turns one line of free text into an action.
pub struct Parser;

impl Parser {
    /// Parses one input line; see `spec_parse_action` for the exact result.
    pub fn parse_action(input: &str) -> (r: Result<Action, UiError>)
        ensures
            r == spec_parse_action(input.spec_bytes()),
    {
        let s = input.as_bytes();
        let a = skip_blanks_at(s, 0);
        if a >= s.len() {
            return Err(UiError::EmptyInput);
        }
        let b = token_end_at(s, a);
        if b - a != 1 {
            return Err(UiError::UnknownCommand);
        }

        let raw = s[a];
        let c = if 65 <= raw && raw <= 90 {
            raw + 32
        } else {
            raw
        };

        if c == 113 {
            Ok(Action::Quit)
        } else if c == 115 {
            Ok(Action::Skip)
        } else if c == 114 {
            Ok(Action::PrintRules)
        } else if c == 102 {
            match parse_index(s, b) {
                Ok(index) => Ok(Action::Fight { index }),
                Err(e) => Err(e),
            }
        } else if c == 97 {
            match parse_index(s, b) {
                Ok(index) => Ok(Action::Kill { index }),
                Err(e) => Err(e),
            }
        } else if c == 101 {
            match parse_index(s, b) {
                Ok(index) => Ok(Action::Equip { index }),
                Err(e) => Err(e),
            }
        } else if c == 104 {
            match parse_index(s, b) {
                Ok(index) => Ok(Action::Heal { index }),
                Err(e) => Err(e),
            }
        } else {
            Err(UiError::UnknownCommand)
        }
    }
}

} // verus!
