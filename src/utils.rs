use vstd::prelude::*;

use vstd::string::StrSliceExecFns;

verus! {

/// The character of a decimal digit.
pub open spec fn digit_char(d: nat) -> char {
    if d == 0 {
        '0'
    } else if d == 1 {
        '1'
    } else if d == 2 {
        '2'
    } else if d == 3 {
        '3'
    } else if d == 4 {
        '4'
    } else if d == 5 {
        '5'
    } else if d == 6 {
        '6'
    } else if d == 7 {
        '7'
    } else if d == 8 {
        '8'
    } else {
        '9'
    }
}

/// `n` written in decimal, without leading zeros.
pub open spec fn decimal(n: nat) -> Seq<char>
    decreases n,
{
    if n < 10 {
        seq![digit_char(n)]
    } else {
        decimal(n / 10).push(digit_char(n % 10))
    }
}

/// `n < 100` written with two digits.
pub open spec fn two_digits(n: nat) -> Seq<char> {
    seq![digit_char(n / 10), digit_char(n % 10)]
}

/// The unit a value given in thousandths is shown in, in thousandths, and
/// its suffix: billions, millions and (from ten thousand on) thousands are
/// shortened.
pub open spec fn unit_of(v: nat) -> (nat, Seq<char>) {
    if v >= 1_000_000_000_000 {
        (1_000_000_000_000, seq!['B'])
    } else if v >= 1_000_000_000 {
        (1_000_000_000, seq!['M'])
    } else if v >= 10_000_000 {
        (1_000_000, seq!['k'])
    } else {
        (1_000, seq![])
    }
}

/// How a value given in thousandths is shown: in its unit with its suffix;
/// as the nearest whole number where it lies within a thousandth of the unit
/// of one, else rounded to two decimals.
pub open spec fn spec_format(v: nat) -> Seq<char> {
    let (u, suffix) = unit_of(v);
    let step = u / 1000;
    let rem = v % u;
    if rem < step {
        decimal(v / u) + suffix
    } else if u - rem < step {
        decimal(v / u + 1) + suffix
    } else {
        let h = (v / step + 5) / 10;
        decimal(h / 100) + seq!['.'] + two_digits(h % 100) + suffix
    }
}

fn digit_str(d: u64) -> (r: &'static str)
    requires
        d < 10,
    ensures
        r@ == seq![digit_char(d as nat)],
{
    proof {
        reveal_strlit("0");
        reveal_strlit("1");
        reveal_strlit("2");
        reveal_strlit("3");
        reveal_strlit("4");
        reveal_strlit("5");
        reveal_strlit("6");
        reveal_strlit("7");
        reveal_strlit("8");
        reveal_strlit("9");
    }
    let r = if d == 0 {
        "0"
    } else if d == 1 {
        "1"
    } else if d == 2 {
        "2"
    } else if d == 3 {
        "3"
    } else if d == 4 {
        "4"
    } else if d == 5 {
        "5"
    } else if d == 6 {
        "6"
    } else if d == 7 {
        "7"
    } else if d == 8 {
        "8"
    } else {
        "9"
    };
    assert(r@ =~= seq![digit_char(d as nat)]);
    r
}

/// Appends `n` in decimal to `s`.
pub fn push_decimal(s: &mut String, n: u64)
    ensures
        final(s)@ == old(s)@ + decimal(n as nat),
    decreases n,
{
    if n >= 10 {
        push_decimal(s, n / 10);
    }
    s.append(digit_str(n % 10));
    proof {
        if n >= 10 {
            assert(decimal(n as nat) == decimal((n / 10) as nat).push(digit_char((n % 10) as nat)));
        } else {
            assert(n % 10 == n);
        }
        assert(final(s)@ =~= old(s)@ + decimal(n as nat));
    }
}

/// Shows a value given in thousandths: from ten thousand on shortened with
/// `k`, `M` or `B`; without decimals where it is within a thousandth (of the
/// shown unit) of a whole number, else with two decimals.
pub fn format_number(number: u64) -> (r: String)
    ensures
        r@ == spec_format(number as nat),
{
    let (u, suffix): (u64, &str) = if number >= 1_000_000_000_000 {
        (1_000_000_000_000, "B")
    } else if number >= 1_000_000_000 {
        (1_000_000_000, "M")
    } else if number >= 10_000_000 {
        (1_000_000, "k")
    } else {
        (1_000, "")
    };
    proof {
        reveal_strlit("B");
        reveal_strlit("M");
        reveal_strlit("k");
        reveal_strlit("");
        reveal_strlit(".");
        assert(suffix@ == unit_of(number as nat).1);
    }
    let step = u / 1000;
    let rem = number % u;
    let mut s = String::new();
    if rem < step {
        push_decimal(&mut s, number / u);
    } else if u - rem < step {
        push_decimal(&mut s, number / u + 1);
    } else {
        let n = number / step;
        let h = (n / 10) + if n % 10 >= 5 { 1 } else { 0 };
        assert(h == (n + 5) / 10);
        push_decimal(&mut s, h / 100);
        s.append(".");
        let frac = h % 100;
        s.append(digit_str(frac / 10));
        s.append(digit_str(frac % 10));
    }
    s.append(suffix);
    assert(s@ =~= spec_format(number as nat));
    s
}

/// An amount given either outright or as a share (in thousandths) of a size
/// not yet known.
#[derive(Clone, Copy, Debug, PartialEq, Eq, Structural)]
pub enum Value {
    Abs(u64),
    Percentage(u64),
}

impl Value {
    /// Turns a share into an amount of the given size; an amount stays.
    pub fn scale(&mut self, scale: u64)
        requires
            *old(self) matches Value::Percentage(v) ==> v * scale <= u64::MAX,
        ensures
            *final(self) == match *old(self) {
                Value::Percentage(v) => Value::Abs((v * scale / 1000) as u64),
                Value::Abs(v) => Value::Abs(v),
            },
    {
        if let Value::Percentage(val) = *self {
            *self = Value::Abs(val * scale / 1000);
        }
    }
}

} // verus!
