//! The decision rules of the interactive prompts: how a confirmation
//! answer and a menu selection are read.  The prompting loops themselves
//! live with the caller; these functions take one already-trimmed line of
//! input and say what it means, or that it means nothing and the question
//! must be asked again.

use crate::numtext::{dec_val, is_valid_usize_str, parse_usize, usize_body};
use vstd::prelude::*;
use vstd::string::*;

verus! {

/// A character folded to lower case, for the ASCII letters; the accepted
/// answer words hold nothing that any other character folds to.
pub open spec fn ascii_lower_char(c: char) -> char {
    if 65 <= c as u32 && c as u32 <= 90 {
        ((c as u32 + 32) as u8) as char
    } else {
        c
    }
}

/// A text folded to lower case characterwise.
pub open spec fn ascii_lower(s: Seq<char>) -> Seq<char> {
    s.map_values(|c: char| ascii_lower_char(c))
}

fn lower_char(c: char) -> (r: char)
    ensures
        r == ascii_lower_char(c),
{
    let u = c as u32;
    if 65 <= u && u <= 90 {
        ((u + 32) as u8) as char
    } else {
        c
    }
}

/// Whether `s`, folded to lower case, reads exactly `t`.
fn eq_lower(s: &str, t: &str) -> (r: bool)
    ensures
        r == (ascii_lower(s@) == t@),
{
    let n = s.unicode_len();
    if n != t.unicode_len() {
        return false;
    }
    let mut i: usize = 0;
    while i < n
        invariant
            i <= n,
            n == s@.len(),
            n == t@.len(),
            forall|j: int| 0 <= j < i ==> ascii_lower(s@)[j] == t@[j],
        decreases n - i,
    {
        if lower_char(s.get_char(i)) != t.get_char(i) {
            proof {
                assert(ascii_lower(s@)[i as int] != t@[i as int]);
            }
            return false;
        }
        i = i + 1;
    }
    proof {
        assert(ascii_lower(s@) =~= t@);
    }
    true
}

/// What a confirmation answer means: nothing entered takes the default,
/// the yes words and the no words decide, and anything else means the
/// question must be asked again.
pub open spec fn confirm_answer(input: Seq<char>, default: bool) -> Option<bool> {
    if input.len() == 0 {
        Some(default)
    } else if ascii_lower(input) == "y"@ || ascii_lower(input) == "yes"@ || ascii_lower(input)
        == "はい"@ {
        Some(true)
    } else if ascii_lower(input) == "n"@ || ascii_lower(input) == "no"@ || ascii_lower(input)
        == "いいえ"@ {
        Some(false)
    } else {
        None
    }
}

/// Reads one trimmed confirmation answer, exactly as `confirm_answer`
/// states.
pub fn interpret_confirm(input: &str, default: bool) -> (r: Option<bool>)
    ensures
        r == confirm_answer(input@, default),
{
    if input.is_empty() {
        return Some(default);
    }
    if eq_lower(input, "y") || eq_lower(input, "yes") || eq_lower(input, "はい") {
        return Some(true);
    }
    if eq_lower(input, "n") || eq_lower(input, "no") || eq_lower(input, "いいえ") {
        return Some(false);
    }
    None
}

/// What a menu answer means: a number from 1 to the option count selects
/// that option (counted from zero); anything else means the question must
/// be asked again.
pub open spec fn selection_answer(input: Seq<char>, count: int) -> Option<int> {
    if is_valid_usize_str(input) && 1 <= dec_val(usize_body(input)) <= count {
        Some(dec_val(usize_body(input)) - 1)
    } else {
        None
    }
}

/// Reads one trimmed menu answer against `option_count` options, exactly
/// as `selection_answer` states.
pub fn interpret_selection(input: &str, option_count: usize) -> (r: Option<usize>)
    ensures
        (r matches Some(v) ==> selection_answer(input@, option_count as int) == Some(v as int)),
        (r is None ==> selection_answer(input@, option_count as int) is None),
{
    match parse_usize(input) {
        Some(num) => {
            if 1 <= num && num <= option_count {
                Some(num - 1)
            } else {
                None
            }
        },
        None => None,
    }
}

} // verus!
