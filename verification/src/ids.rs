//! Record identifiers generated from a creation timestamp.
//!
//! An id is the decimal form of the creation instant (milliseconds since the
//! epoch), with a leading `m` for an instant before the epoch. Two parses in
//! the same millisecond would collide, so the store extends a colliding id
//! with `x` marks until it is longer than every id it already holds.

use vstd::prelude::*;

verus! {

/// The decimal digit character for one digit value.
pub open spec fn digit_char(d: nat) -> char {
    if d == 0 {
        '0'
    } else if d == 1 {
        '1'
    } else if d == 2 {
        '2'
    } else if d == 3 {
        '3'
    } else if d == 4 {
        '4'
    } else if d == 5 {
        '5'
    } else if d == 6 {
        '6'
    } else if d == 7 {
        '7'
    } else if d == 8 {
        '8'
    } else {
        '9'
    }
}

/// The decimal digits of `n`, most significant first.
pub open spec fn digits_of(n: nat) -> Seq<char>
    decreases n,
{
    if n < 10 {
        seq![digit_char(n)]
    } else {
        digits_of(n / 10).push(digit_char(n % 10))
    }
}

/// The id base generated for a creation instant.
pub open spec fn id_base_spec(now: int) -> Seq<char> {
    if now >= 0 {
        digits_of(now as nat)
    } else {
        seq!['m'] + digits_of((-now) as nat)
    }
}

/// The single-character string for one digit value.
fn digit_str(d: u64) -> (r: &'static str)
    requires
        d < 10,
    ensures
        r@ == seq![digit_char(d as nat)],
{
    proof {
        reveal_strlit("0");
        reveal_strlit("1");
        reveal_strlit("2");
        reveal_strlit("3");
        reveal_strlit("4");
        reveal_strlit("5");
        reveal_strlit("6");
        reveal_strlit("7");
        reveal_strlit("8");
        reveal_strlit("9");
    }
    if d == 0 {
        "0"
    } else if d == 1 {
        "1"
    } else if d == 2 {
        "2"
    } else if d == 3 {
        "3"
    } else if d == 4 {
        "4"
    } else if d == 5 {
        "5"
    } else if d == 6 {
        "6"
    } else if d == 7 {
        "7"
    } else if d == 8 {
        "8"
    } else {
        "9"
    }
}

/// The decimal form of `n`.
pub fn u64_digits(n: u64) -> (r: String)
    ensures
        r@ == digits_of(n as nat),
    decreases n,
{
    if n < 10 {
        String::from_str(digit_str(n))
    } else {
        let mut s = u64_digits(n / 10);
        s.append(digit_str(n % 10));
        proof {
            assert(s@ =~= digits_of(n as nat));
        }
        s
    }
}

/// The id base for a creation instant: its decimal milliseconds, marked
/// with a leading `m` when the instant lies before the epoch.
pub fn id_base(now: i64) -> (r: String)
    ensures
        r@ == id_base_spec(now as int),
{
    if now >= 0 {
        u64_digits(now as u64)
    } else {
        let mag: u64 = if now == i64::MIN {
            9223372036854775808u64
        } else {
            (-now) as u64
        };
        let mut s = String::from_str("m");
        proof {
            reveal_strlit("m");
        }
        s.append(u64_digits(mag).as_str());
        proof {
            assert(s@ =~= id_base_spec(now as int));
        }
        s
    }
}

} // verus!
