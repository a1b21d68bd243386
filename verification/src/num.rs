//! The numeric tokens of both file formats.
//!
//! A numeric field is kept as its validated decimal token: an optional sign,
//! one or more digits, and optionally a decimal point followed by one or
//! more digits.  Index fields are unsigned decimal integers that must fit in
//! `u16`.

use vstd::prelude::*;

verus! {

pub open spec fn sp_is_digit(c: char) -> bool {
    48 <= c as u32 && c as u32 <= 57
}

/// Remainder of a numeric token after its first digit: digits, with at most
/// one decimal point, which must be followed by a digit.
pub open spec fn sp_num_tail(s: Seq<char>, seen_dot: bool) -> bool
    decreases s.len(),
{
    if s.len() == 0 {
        true
    } else if sp_is_digit(s[0]) {
        sp_num_tail(s.drop_first(), seen_dot)
    } else if s[0] == '.' && !seen_dot && s.len() >= 2 && sp_is_digit(s[1]) {
        sp_num_tail(s.drop_first(), true)
    } else {
        false
    }
}

/// The accepted decimal number grammar: an optional `+` or `-` sign, one or
/// more digits, and optionally a single decimal point followed by one or
/// more digits.
pub open spec fn sp_is_num(s: Seq<char>) -> bool {
    let body = if s.len() > 0 && (s[0] == '-' || s[0] == '+') {
        s.drop_first()
    } else {
        s
    };
    body.len() > 0 && sp_is_digit(body[0]) && sp_num_tail(body.drop_first(), false)
}

pub open spec fn sp_all_digits(s: Seq<char>) -> bool {
    s.len() > 0 && forall|j: int| 0 <= j < s.len() ==> sp_is_digit(s[j])
}

/// Value of a digit string read as a decimal number.
pub open spec fn sp_digits_val(s: Seq<char>) -> int
    decreases s.len(),
{
    if s.len() == 0 {
        0
    } else {
        sp_digits_val(s.drop_last()) * 10 + (s.last() as u32 - 48)
    }
}

fn is_digit(c: char) -> (r: bool)
    ensures
        r == sp_is_digit(c),
{
    let d = c as u32;
    48 <= d && d <= 57
}

/// Whether `s` is a numeric token of the accepted grammar.
pub fn is_num_token(s: &str) -> (r: bool)
    ensures
        r == sp_is_num(s@),
{
    let n = s.unicode_len();
    if n == 0 {
        return false;
    }
    let c0 = s.get_char(0);
    let mut i: usize = if c0 == '-' || c0 == '+' {
        1
    } else {
        0
    };
    let ghost body = if c0 == '-' || c0 == '+' {
        s@.drop_first()
    } else {
        s@
    };
    if i >= n {
        proof {
            assert(body.len() == 0);
        }
        return false;
    }
    let c1 = s.get_char(i);
    if !is_digit(c1) {
        proof {
            assert(body[0] == s@[i as int]);
        }
        return false;
    }
    proof {
        assert(body.len() > 0 && sp_is_digit(body[0]));
        assert(body.drop_first() =~= s@.subrange(i + 1 as int, n as int));
    }
    i = i + 1;
    let mut seen_dot = false;
    while i < n
        invariant
            n == s@.len(),
            i <= n,
            sp_is_num(s@) == sp_num_tail(s@.subrange(i as int, n as int), seen_dot),
        decreases n - i,
    {
        let ghost rem = s@.subrange(i as int, n as int);
        proof {
            assert(rem.len() == n - i);
            assert(rem[0] == s@[i as int]);
            assert(rem.drop_first() =~= s@.subrange(i + 1 as int, n as int));
            if rem.len() >= 2 {
                assert(rem[1] == s@[i + 1 as int]);
            }
        }
        let c = s.get_char(i);
        if is_digit(c) {
            i = i + 1;
        } else if c == '.' && !seen_dot && i + 1 < n && is_digit(s.get_char(i + 1)) {
            seen_dot = true;
            i = i + 1;
        } else {
            proof {
                assert(!sp_num_tail(rem, seen_dot));
            }
            return false;
        }
    }
    proof {
        assert(s@.subrange(n as int, n as int) =~= Seq::<char>::empty());
    }
    true
}

/// Parse an unsigned decimal index that must fit in `u16`: the digits and
/// their value are pinned exactly, and any other token is rejected.
pub fn parse_u16(s: &str) -> (r: Option<u16>)
    ensures
        r is Some <==> sp_all_digits(s@) && sp_digits_val(s@) <= u16::MAX,
        r is Some ==> r->0 as int == sp_digits_val(s@),
{
    let n = s.unicode_len();
    if n == 0 {
        return None;
    }
    let mut val: u32 = 0;
    let mut big = false;
    let mut i: usize = 0;
    while i < n
        invariant
            n == s@.len(),
            n > 0,
            i <= n,
            forall|j: int| 0 <= j < i ==> sp_is_digit(s@[j]),
            big == (sp_digits_val(s@.subrange(0, i as int)) > u16::MAX),
            !big ==> val == sp_digits_val(s@.subrange(0, i as int)) && val <= u16::MAX,
        decreases n - i,
    {
        let ghost pre = s@.subrange(0, i as int);
        let ghost post = s@.subrange(0, i + 1 as int);
        proof {
            assert(post.drop_last() =~= pre);
            assert(post.last() == s@[i as int]);
        }
        let c = s.get_char(i);
        if !is_digit(c) {
            return None;
        }
        let d = c as u32 - 48;
        if big {
            proof {
                assert(sp_digits_val(post) == sp_digits_val(pre) * 10 + d);
            }
        } else {
            let next = val * 10 + d;
            if next > 65535 {
                big = true;
            } else {
                val = next;
            }
        }
        i = i + 1;
    }
    proof {
        assert(s@.subrange(0, n as int) =~= s@);
    }
    if big {
        None
    } else {
        Some(val as u16)
    }
}

} // verus!
