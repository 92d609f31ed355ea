//! Decimal text for unsigned integers: rendering a number as the usual
//! base-ten digit string, and reading such a string back.

use vstd::prelude::*;
use vstd::string::*;

verus! {

/// The character for a single decimal digit.
pub open spec fn digit_char(d: nat) -> char {
    if d == 0 {
        '0'
    } else if d == 1 {
        '1'
    } else if d == 2 {
        '2'
    } else if d == 3 {
        '3'
    } else if d == 4 {
        '4'
    } else if d == 5 {
        '5'
    } else if d == 6 {
        '6'
    } else if d == 7 {
        '7'
    } else if d == 8 {
        '8'
    } else {
        '9'
    }
}

/// The base-ten digit string of `n`, most significant digit first,
/// with no leading zeros except for `n == 0` itself.
pub open spec fn dec_str(n: nat) -> Seq<char>
    decreases n,
{
    if n < 10 {
        seq![digit_char(n)]
    } else {
        dec_str(n / 10).push(digit_char(n % 10))
    }
}

fn digit_literal(d: u64) -> (r: &'static str)
    requires
        d < 10,
    ensures
        r@ == seq![digit_char(d as nat)],
{
    proof {
        reveal_strlit("0");
        reveal_strlit("1");
        reveal_strlit("2");
        reveal_strlit("3");
        reveal_strlit("4");
        reveal_strlit("5");
        reveal_strlit("6");
        reveal_strlit("7");
        reveal_strlit("8");
        reveal_strlit("9");
    }
    let r: &'static str = if d == 0 {
        "0"
    } else if d == 1 {
        "1"
    } else if d == 2 {
        "2"
    } else if d == 3 {
        "3"
    } else if d == 4 {
        "4"
    } else if d == 5 {
        "5"
    } else if d == 6 {
        "6"
    } else if d == 7 {
        "7"
    } else if d == 8 {
        "8"
    } else {
        "9"
    };
    proof {
        assert(r@ =~= seq![digit_char(d as nat)]);
    }
    r
}

/// Renders `n` in decimal.
pub fn u64_to_dec(n: u64) -> (r: String)
    ensures
        r@ == dec_str(n as nat),
    decreases n,
{
    if n < 10 {
        String::from_str(digit_literal(n))
    } else {
        let mut prefix = u64_to_dec(n / 10);
        prefix.append(digit_literal(n % 10));
        proof {
            assert(prefix@ =~= dec_str(n as nat));
        }
        prefix
    }
}

/// Renders `n` in decimal; for quantities whose intermediate arithmetic
/// needs more than 64 bits.
pub fn u128_to_dec(n: u128) -> (r: String)
    ensures
        r@ == dec_str(n as nat),
    decreases n,
{
    if n < 10 {
        String::from_str(digit_literal(n as u64))
    } else {
        let mut prefix = u128_to_dec(n / 10);
        prefix.append(digit_literal((n % 10) as u64));
        proof {
            assert(prefix@ =~= dec_str(n as nat));
        }
        prefix
    }
}

/// A decimal digit character.
pub open spec fn is_digit_char(c: char) -> bool {
    48 <= c as u32 && c as u32 <= 57
}

/// The value of a digit character.
pub open spec fn digit_val(c: char) -> nat {
    (c as u32 - 48) as nat
}

/// A non-empty run of decimal digits.
pub open spec fn is_digit_str(s: Seq<char>) -> bool {
    s.len() > 0 && forall|i: int| 0 <= i < s.len() ==> is_digit_char(#[trigger] s[i])
}

/// The number a digit string denotes, most significant digit first.
pub open spec fn dec_val(s: Seq<char>) -> nat
    decreases s.len(),
{
    if s.len() == 0 {
        0
    } else {
        dec_val(s.drop_last()) * 10 + digit_val(s.last())
    }
}

/// The digits of a number text, once an optional leading plus sign is
/// taken off.
pub open spec fn usize_body(s: Seq<char>) -> Seq<char> {
    if s.len() > 0 && s[0] == '+' {
        s.drop_first()
    } else {
        s
    }
}

/// The texts that std's parse into `usize` accepts: an optional plus sign,
/// then digits only, denoting a value the machine word holds.
pub open spec fn is_valid_usize_str(s: Seq<char>) -> bool {
    is_digit_str(usize_body(s)) && dec_val(usize_body(s)) <= usize::MAX
}

/// A longer digit prefix never denotes a smaller number.
proof fn lemma_dec_val_mono(s: Seq<char>, a: int, i: int, j: int)
    requires
        0 <= a <= i <= j <= s.len(),
    ensures
        dec_val(s.subrange(a, j)) >= dec_val(s.subrange(a, i)),
    decreases j - i,
{
    if j > i {
        lemma_dec_val_mono(s, a, i, j - 1);
        assert(s.subrange(a, j).drop_last() =~= s.subrange(a, j - 1));
        assert(dec_val(s.subrange(a, j)) == dec_val(s.subrange(a, j - 1)) * 10 + digit_val(
            s.subrange(a, j).last(),
        ));
        assert(dec_val(s.subrange(a, j - 1)) * 10 >= dec_val(s.subrange(a, j - 1)));
    }
}

/// Reads a decimal text as `usize`, exactly as std's parse does: a value
/// for the valid texts, nothing otherwise.
pub fn parse_usize(s: &str) -> (r: Option<usize>)
    ensures
        is_valid_usize_str(s@) ==> (r matches Some(v) && v as nat == dec_val(usize_body(s@))),
        !is_valid_usize_str(s@) ==> r is None,
{
    let n = s.unicode_len();
    let start: usize = if n > 0 && s.get_char(0) == '+' {
        1
    } else {
        0
    };
    proof {
        assert(usize_body(s@) =~= s@.subrange(start as int, n as int));
    }
    if start >= n {
        return None;
    }
    let mut acc: usize = 0;
    let mut i: usize = start;
    proof {
        assert(s@.subrange(start as int, start as int) =~= Seq::<char>::empty());
    }
    while i < n
        invariant
            start <= i <= n,
            n == s@.len(),
            usize_body(s@) =~= s@.subrange(start as int, n as int),
            forall|j: int| start <= j < i ==> is_digit_char(#[trigger] s@[j]),
            acc as nat == dec_val(s@.subrange(start as int, i as int)),
        decreases n - i,
    {
        let c = s.get_char(i);
        let u = c as u32;
        if u < 48 || u > 57 {
            proof {
                assert(!is_digit_char(s@[i as int]));
                assert(usize_body(s@)[i - start] == s@[i as int]);
                assert(!is_digit_str(usize_body(s@)));
            }
            return None;
        }
        let d = (u - 48) as usize;
        proof {
            assert(s@.subrange(start as int, i + 1 as int).drop_last() =~= s@.subrange(
                start as int,
                i as int,
            ));
            assert(dec_val(s@.subrange(start as int, i + 1 as int)) == acc as nat * 10 + d as nat);
        }
        if acc > (usize::MAX - d) / 10 {
            proof {
                assert(acc as nat * 10 + d as nat > usize::MAX) by (nonlinear_arith)
                    requires
                        acc as nat > ((usize::MAX - d) as nat) / 10,
                        d as nat <= usize::MAX,
                ;
                lemma_dec_val_mono(s@, start as int, i + 1, n as int);
                assert(dec_val(usize_body(s@)) > usize::MAX);
            }
            return None;
        }
        proof {
            assert(acc as nat * 10 + d as nat <= usize::MAX) by (nonlinear_arith)
                requires
                    acc as nat <= ((usize::MAX - d) as nat) / 10,
                    d as nat <= usize::MAX,
            ;
        }
        acc = acc * 10 + d;
        i = i + 1;
    }
    proof {
        assert(is_digit_str(usize_body(s@)));
    }
    Some(acc)
}

} // verus!
