//! Decimal formatting of counters, used for the `Del` response.

use vstd::prelude::*;

verus! {

/// The character of one decimal digit.
pub open spec fn digit_char(d: nat) -> char {
    if d == 0 {
        '0'
    } else if d == 1 {
        '1'
    } else if d == 2 {
        '2'
    } else if d == 3 {
        '3'
    } else if d == 4 {
        '4'
    } else if d == 5 {
        '5'
    } else if d == 6 {
        '6'
    } else if d == 7 {
        '7'
    } else if d == 8 {
        '8'
    } else {
        '9'
    }
}

/// The decimal representation of a number, most significant digit first, with
/// no leading zeros (`0` itself is the single character `0`).
pub open spec fn dec_str(n: nat) -> Seq<char>
    decreases n,
{
    if n < 10 {
        seq![digit_char(n)]
    } else {
        dec_str(n / 10).push(digit_char(n % 10))
    }
}

/// Appends the character of one decimal digit.
fn append_digit(s: &mut String, d: usize)
    requires
        d < 10,
    ensures
        final(s)@ == old(s)@.push(digit_char(d as nat)),
{
    match d {
        0 => {
            s.append("0");
            proof {
                reveal_strlit("0");
            }
        },
        1 => {
            s.append("1");
            proof {
                reveal_strlit("1");
            }
        },
        2 => {
            s.append("2");
            proof {
                reveal_strlit("2");
            }
        },
        3 => {
            s.append("3");
            proof {
                reveal_strlit("3");
            }
        },
        4 => {
            s.append("4");
            proof {
                reveal_strlit("4");
            }
        },
        5 => {
            s.append("5");
            proof {
                reveal_strlit("5");
            }
        },
        6 => {
            s.append("6");
            proof {
                reveal_strlit("6");
            }
        },
        7 => {
            s.append("7");
            proof {
                reveal_strlit("7");
            }
        },
        8 => {
            s.append("8");
            proof {
                reveal_strlit("8");
            }
        },
        _ => {
            s.append("9");
            proof {
                reveal_strlit("9");
            }
        },
    }
    proof {
        assert(s@ =~= old(s)@.push(digit_char(d as nat)));
    }
}

/// Formats a number in decimal.
pub fn usize_to_string(n: usize) -> (s: String)
    ensures
        s@ == dec_str(n as nat),
    decreases n,
{
    if n < 10 {
        let mut s = String::new();
        append_digit(&mut s, n);
        proof {
            assert(s@ =~= dec_str(n as nat));
        }
        s
    } else {
        let mut s = usize_to_string(n / 10);
        append_digit(&mut s, n % 10);
        s
    }
}

} // verus!
