use vstd::prelude::*;
use vstd::string::*;

verus! {

/// The character of a decimal digit.
pub open spec fn digit_char(k: int) -> char {
    (k + 48) as char
}

pub open spec fn is_digit(c: char) -> bool {
    48 <= c as u32 <= 57
}

/// Decimal text of a natural number, without leading zeros.
pub open spec fn decimal_text(n: nat) -> Seq<char>
    decreases n,
{
    if n < 10 {
        seq![digit_char(n as int)]
    } else {
        decimal_text(n / 10) + seq![digit_char((n % 10) as int)]
    }
}

pub proof fn lemma_digit_char(k: int)
    requires
        0 <= k < 10,
    ensures
        digit_char(k) as u32 == k + 48,
        is_digit(digit_char(k)),
{
}

fn digit_str(k: u32) -> (r: &'static str)
    requires
        k < 10,
    ensures
        r@ == seq![digit_char(k as int)],
{
    if k == 0 {
        proof {
            reveal_strlit("0");
        }
        "0"
    } else if k == 1 {
        proof {
            reveal_strlit("1");
        }
        "1"
    } else if k == 2 {
        proof {
            reveal_strlit("2");
        }
        "2"
    } else if k == 3 {
        proof {
            reveal_strlit("3");
        }
        "3"
    } else if k == 4 {
        proof {
            reveal_strlit("4");
        }
        "4"
    } else if k == 5 {
        proof {
            reveal_strlit("5");
        }
        "5"
    } else if k == 6 {
        proof {
            reveal_strlit("6");
        }
        "6"
    } else if k == 7 {
        proof {
            reveal_strlit("7");
        }
        "7"
    } else if k == 8 {
        proof {
            reveal_strlit("8");
        }
        "8"
    } else {
        proof {
            reveal_strlit("9");
        }
        "9"
    }
}

/// Appends the decimal text of `n`.
pub fn append_decimal(out: &mut String, n: u32)
    ensures
        final(out)@ == old(out)@ + decimal_text(n as nat),
    decreases n,
{
    if n >= 10 {
        append_decimal(out, n / 10);
    }
    out.append(digit_str(n % 10));
}

/// The decimal text of `n`.
pub fn decimal(n: u32) -> (r: String)
    ensures
        r@ == decimal_text(n as nat),
{
    let mut s = String::new();
    append_decimal(&mut s, n);
    proof {
        assert(s@ =~= decimal_text(n as nat));
    }
    s
}

} // verus!
