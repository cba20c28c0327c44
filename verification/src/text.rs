//! Decimal text of numbers, zero-padded to a width as `{:0w}` pads them.
use vstd::prelude::*;

verus! {

pub open spec fn digit_char(n: int) -> char {
    if n == 0 {
        '0'
    } else if n == 1 {
        '1'
    } else if n == 2 {
        '2'
    } else if n == 3 {
        '3'
    } else if n == 4 {
        '4'
    } else if n == 5 {
        '5'
    } else if n == 6 {
        '6'
    } else if n == 7 {
        '7'
    } else if n == 8 {
        '8'
    } else {
        '9'
    }
}

pub open spec fn is_digit_char(c: char) -> bool {
    '0' <= c <= '9'
}

/// The decimal digits of `n`, most significant first, with no leading zero.
pub open spec fn decimal(n: nat) -> Seq<char>
    decreases n,
{
    if n < 10 {
        seq![digit_char(n as int)]
    } else {
        decimal(n / 10).push(digit_char((n % 10) as int))
    }
}

/// The decimal digits of `n`, with zeros in front up to `width` characters.
pub open spec fn zero_padded(n: nat, width: nat) -> Seq<char> {
    let s = decimal(n);
    if s.len() >= width {
        s
    } else {
        Seq::new((width - s.len()) as nat, |i: int| '0') + s
    }
}

/// `n` as `{:0width}` formats it: a minus sign first for a negative number,
/// counted in the width.
pub open spec fn signed_zero_padded(n: int, width: nat) -> Seq<char> {
    if n < 0 {
        seq!['-'] + zero_padded((-n) as nat, (width - 1) as nat)
    } else {
        zero_padded(n as nat, width)
    }
}

/// Every character of the decimal text of a number is a digit.
pub proof fn lemma_decimal_digits(n: nat)
    ensures
        decimal(n).len() >= 1,
        forall|i: int| 0 <= i < decimal(n).len() ==> is_digit_char(#[trigger] decimal(n)[i]),
    decreases n,
{
    if n >= 10 {
        lemma_decimal_digits(n / 10);
    }
}

/// Numbers below `10^k` have at most `k` digits.
pub proof fn lemma_decimal_len_bound(n: nat, k: nat, bound: nat)
    requires
        k >= 1,
        bound == vstd::arithmetic::power::pow(10, k),
        n < bound,
    ensures
        decimal(n).len() <= k,
    decreases k,
{
    vstd::arithmetic::power::lemma_pow_positive(10, k);
    if n >= 10 {
        let b2 = vstd::arithmetic::power::pow(10, (k - 1) as nat);
        if k == 1 {
            assert(bound == 10) by {
                vstd::arithmetic::power::lemma_pow1(10);
            }
        } else {
            assert(bound == 10 * b2) by {
                vstd::arithmetic::power::lemma_pow_adds(10, 1, (k - 1) as nat);
                vstd::arithmetic::power::lemma_pow1(10);
            }
            lemma_decimal_len_bound(n / 10, (k - 1) as nat, b2 as nat);
        }
    }
}

/// The zero-padded text of a number below `10^width` is `width` digits.
pub proof fn lemma_zero_padded_digits(n: nat, width: nat, bound: nat)
    requires
        width >= 1,
        bound == vstd::arithmetic::power::pow(10, width),
        n < bound,
    ensures
        zero_padded(n, width).len() == width,
        forall|i: int| 0 <= i < width ==> is_digit_char(#[trigger] zero_padded(n, width)[i]),
{
    lemma_decimal_len_bound(n, width, bound);
    lemma_decimal_digits(n);
    let s = decimal(n);
    let p = zero_padded(n, width);
    assert forall|i: int| 0 <= i < width implies is_digit_char(#[trigger] p[i]) by {
        if s.len() < width {
            let z = (width - s.len()) as int;
            if i >= z {
                assert(p[i] == s[i - z]);
            }
        }
    }
}

fn digit_str(d: u64) -> (s: &'static str)
    requires
        d < 10,
    ensures
        s@ == seq![digit_char(d as int)],
{
    if d == 0 {
        proof {
            reveal_strlit("0");
        }
        "0"
    } else if d == 1 {
        proof {
            reveal_strlit("1");
        }
        "1"
    } else if d == 2 {
        proof {
            reveal_strlit("2");
        }
        "2"
    } else if d == 3 {
        proof {
            reveal_strlit("3");
        }
        "3"
    } else if d == 4 {
        proof {
            reveal_strlit("4");
        }
        "4"
    } else if d == 5 {
        proof {
            reveal_strlit("5");
        }
        "5"
    } else if d == 6 {
        proof {
            reveal_strlit("6");
        }
        "6"
    } else if d == 7 {
        proof {
            reveal_strlit("7");
        }
        "7"
    } else if d == 8 {
        proof {
            reveal_strlit("8");
        }
        "8"
    } else {
        proof {
            reveal_strlit("9");
        }
        "9"
    }
}

/// Appends the decimal digits of `n`.
pub fn push_decimal(text: &mut String, n: u64)
    ensures
        final(text)@ == old(text)@ + decimal(n as nat),
    decreases n,
{
    if n >= 10 {
        push_decimal(text, n / 10);
    }
    text.append(digit_str(n % 10));
}

/// The number of decimal digits of `n`.
fn decimal_len(n: u64) -> (len: u64)
    ensures
        len == decimal(n as nat).len(),
        1 <= len <= n as int + 1,
    decreases n,
{
    if n < 10 {
        1
    } else {
        decimal_len(n / 10) + 1
    }
}

/// Appends the decimal digits of `n`, with zeros in front up to `width`
/// characters.
pub fn push_padded(text: &mut String, n: u64, width: u64)
    ensures
        final(text)@ == old(text)@ + zero_padded(n as nat, width as nat),
{
    let len = decimal_len(n);
    let mut i = len;
    proof {
        reveal_strlit("0");
    }
    while i < width
        invariant
            len <= i,
            len == decimal(n as nat).len(),
            i <= width || i == len,
            text@ == old(text)@ + Seq::new((i - len) as nat, |j: int| '0'),
        decreases width - i,
    {
        proof {
            reveal_strlit("0");
        }
        text.append("0");
        i = i + 1;
        assert(text@ =~= old(text)@ + Seq::new((i - len) as nat, |j: int| '0'));
    }
    let ghost before = text@;
    push_decimal(text, n);
    assert(text@ =~= old(text)@ + zero_padded(n as nat, width as nat));
}

/// `n` as `{:0width}` formats it.
pub fn signed_padded_text(n: i64, width: u64) -> (text: String)
    requires
        n > i64::MIN,
        width >= 1,
    ensures
        text@ == signed_zero_padded(n as int, width as nat),
{
    let mut text = String::new();
    if n < 0 {
        proof {
            reveal_strlit("-");
        }
        text.append("-");
        push_padded(&mut text, (-n) as u64, width - 1);
    } else {
        push_padded(&mut text, n as u64, width);
    }
    assert(text@ =~= signed_zero_padded(n as int, width as nat));
    text
}

} // verus!
