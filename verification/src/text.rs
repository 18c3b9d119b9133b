//! Numbers as text: an optional minus sign, the whole part, and after a point
//! the fractional digits up to the last one that is not zero. Whole numbers
//! have no point.

use vstd::prelude::*;
use crate::decimal::{magnitude, Decimal, SCALE};

verus! {

/// The character of the digit `d`.
pub open spec fn digit(d: int) -> char
    recommends
        0 <= d < 10,
{
    if d == 0 {
        '0'
    } else if d == 1 {
        '1'
    } else if d == 2 {
        '2'
    } else if d == 3 {
        '3'
    } else if d == 4 {
        '4'
    } else if d == 5 {
        '5'
    } else if d == 6 {
        '6'
    } else if d == 7 {
        '7'
    } else if d == 8 {
        '8'
    } else {
        '9'
    }
}

/// The decimal digits of `n`, without leading zeros; zero is "0".
pub open spec fn natural_text(n: nat) -> Seq<char>
    decreases n,
{
    if n < 10 {
        seq![digit(n as int)]
    } else {
        natural_text(n / 10).push(digit((n % 10) as int))
    }
}

/// The last `width` decimal digits of `f`, with leading zeros.
pub open spec fn padded_text(f: nat, width: nat) -> Seq<char>
    decreases width,
{
    if width == 0 {
        Seq::empty()
    } else {
        padded_text(f / 10, (width - 1) as nat).push(digit((f % 10) as int))
    }
}

/// The last `width` decimal digits of `f`, with leading zeros and without
/// trailing zeros.
pub open spec fn fraction_text(f: nat, width: nat) -> Seq<char>
    decreases width,
{
    if width == 0 {
        Seq::empty()
    } else if f % 10 == 0 {
        fraction_text(f / 10, (width - 1) as nat)
    } else {
        padded_text(f, width)
    }
}

/// The number with the count `x`, as text.
pub open spec fn decimal_text(x: int) -> Seq<char> {
    let whole = (magnitude(x) / (SCALE as int)) as nat;
    let fraction = (magnitude(x) % (SCALE as int)) as nat;
    let sign = if x < 0 {
        seq!['-']
    } else {
        Seq::empty()
    };
    let point = if fraction == 0 {
        Seq::empty()
    } else {
        seq!['.'] + fraction_text(fraction, 9)
    };
    sign + natural_text(whole) + point
}

/// The digit `d` as a string.
fn digit_str(d: u64) -> (r: &'static str)
    requires
        d < 10,
    ensures
        r@ == seq![digit(d as int)],
{
    proof {
        reveal_strlit("0");
        reveal_strlit("1");
        reveal_strlit("2");
        reveal_strlit("3");
        reveal_strlit("4");
        reveal_strlit("5");
        reveal_strlit("6");
        reveal_strlit("7");
        reveal_strlit("8");
        reveal_strlit("9");
    }
    let r = if d == 0 {
        "0"
    } else if d == 1 {
        "1"
    } else if d == 2 {
        "2"
    } else if d == 3 {
        "3"
    } else if d == 4 {
        "4"
    } else if d == 5 {
        "5"
    } else if d == 6 {
        "6"
    } else if d == 7 {
        "7"
    } else if d == 8 {
        "8"
    } else {
        "9"
    };
    assert(r@ =~= seq![digit(d as int)]);
    r
}

/// Appends the decimal digits of `n`.
fn push_natural(out: &mut String, n: u64)
    ensures
        final(out)@ == old(out)@ + natural_text(n as nat),
    decreases n,
{
    if n >= 10 {
        push_natural(out, n / 10);
    }
    out.append(digit_str(n % 10));
    assert(out@ =~= old(out)@ + natural_text(n as nat));
}

/// Appends the last `width` decimal digits of `f`.
fn push_padded(out: &mut String, f: u64, width: u32)
    ensures
        final(out)@ == old(out)@ + padded_text(f as nat, width as nat),
    decreases width,
{
    if width > 0 {
        push_padded(out, f / 10, width - 1);
        out.append(digit_str(f % 10));
    }
    assert(out@ =~= old(out)@ + padded_text(f as nat, width as nat));
}

/// Appends the number `x` as text.
pub(crate) fn push_decimal(out: &mut String, x: Decimal)
    ensures
        final(out)@ == old(out)@ + decimal_text(x@),
{
    let size: u64 = x.abs().raw() as u64;
    let whole: u64 = size / 1_000_000_000;
    let fraction: u64 = size % 1_000_000_000;
    if x.raw() < 0 {
        proof {
            reveal_strlit("-");
        }
        out.append("-");
    }
    let ghost signed = out@;
    assert(signed =~= old(out)@ + if x@ < 0 {
        seq!['-']
    } else {
        Seq::empty()
    });
    push_natural(out, whole);
    if fraction != 0 {
        proof {
            reveal_strlit(".");
        }
        out.append(".");
        let mut f: u64 = fraction;
        let mut width: u32 = 9;
        while width > 0 && f % 10 == 0
            invariant
                fraction_text(f as nat, width as nat) == fraction_text(fraction as nat, 9),
            decreases width,
        {
            f = f / 10;
            width = width - 1;
        }
        push_padded(out, f, width);
        assert(fraction_text(f as nat, width as nat) == padded_text(f as nat, width as nat));
    }
    assert(out@ =~= old(out)@ + decimal_text(x@));
}

impl Decimal {
    /// The number as text.
    pub fn to_string(&self) -> (r: String)
        ensures
            r@ == decimal_text(self@),
    {
        let mut out = String::new();
        push_decimal(&mut out, *self);
        assert(out@ =~= decimal_text(self@));
        out
    }
}

} // verus!
