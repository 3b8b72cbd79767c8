//! Numbers in decimal.

use vstd::prelude::*;

verus! {

/// The character of a decimal digit.
pub open spec fn digit(d: nat) -> char {
    ('0' as nat + d) as char
}

/// A number in decimal, without leading zeros.
pub open spec fn decimal(n: nat) -> Seq<char>
    decreases n,
{
    if n < 10 {
        seq![digit(n)]
    } else {
        decimal(n / 10).push(digit(n % 10))
    }
}

/// A number in decimal, filled up with zeros on the left to `width` digits.
pub open spec fn zero_padded(n: nat, width: nat) -> Seq<char> {
    let digits = decimal(n);
    if digits.len() < width {
        Seq::new((width - digits.len()) as nat, |i: int| '0') + digits
    } else {
        digits
    }
}

/// One digit as text.
fn digit_text(d: u32) -> (r: &'static str)
    requires
        d < 10,
    ensures
        r@ == seq![digit(d as nat)],
{
    proof {
        reveal_strlit("0");
        reveal_strlit("1");
        reveal_strlit("2");
        reveal_strlit("3");
        reveal_strlit("4");
        reveal_strlit("5");
        reveal_strlit("6");
        reveal_strlit("7");
        reveal_strlit("8");
        reveal_strlit("9");
    }
    match d {
        0 => "0",
        1 => "1",
        2 => "2",
        3 => "3",
        4 => "4",
        5 => "5",
        6 => "6",
        7 => "7",
        8 => "8",
        _ => "9",
    }
}

/// Appends `n` in decimal to `buf`.
pub fn append_decimal(buf: &mut String, n: u32)
    ensures
        final(buf)@ == old(buf)@ + decimal(n as nat),
    decreases n,
{
    if n >= 10 {
        append_decimal(buf, n / 10);
    }
    buf.append(digit_text(n % 10));
}

/// A number below ten is written as its digit.
pub proof fn digits_stand_for_themselves(d: nat)
    requires
        d < 10,
    ensures
        decimal(d) == seq!["0123456789"@[d as int]],
{
    reveal_strlit("0123456789");
}

/// Writing a digit behind a number multiplies it by ten and adds the digit.
pub proof fn digits_are_appended(n: nat, d: nat)
    requires
        n > 0,
        d < 10,
    ensures
        decimal(10 * n + d) == decimal(n).push("0123456789"@[d as int]),
{
    reveal_strlit("0123456789");
    assert((10 * n + d) / 10 == n);
    assert((10 * n + d) % 10 == d);
}

/// A number is written in digits alone, with no zero in front.
pub proof fn decimals_hold_digits(n: nat)
    ensures
        decimal(n).len() > 0,
        forall|i: int| 0 <= i < decimal(n).len() ==> '0' <= #[trigger] decimal(n)[i] <= '9',
        n > 0 ==> decimal(n)[0] != '0',
    decreases n,
{
    if n >= 10 {
        decimals_hold_digits(n / 10);
    }
}

/// No two numbers are written the same.
pub proof fn decimals_tell_numbers_apart(a: nat, b: nat)
    requires
        decimal(a) == decimal(b),
    ensures
        a == b,
    decreases a,
{
    assert(decimal(a).last() == digit(a % 10));
    assert(decimal(b).last() == digit(b % 10));
    assert(digit(a % 10) as nat == '0' as nat + a % 10);
    assert(digit(b % 10) as nat == '0' as nat + b % 10);
    if a >= 10 && b >= 10 {
        assert(decimal(a).drop_last() == decimal(a / 10));
        assert(decimal(b).drop_last() == decimal(b / 10));
        decimals_tell_numbers_apart(a / 10, b / 10);
    } else if a >= 10 {
        decimals_hold_digits(a / 10);
    } else if b >= 10 {
        decimals_hold_digits(b / 10);
    }
}

/// Padding puts zeros in front of a number, just as many as it lacks, and changes
/// nothing else.
pub proof fn padding_only_adds_zeros(n: nat, width: nat)
    ensures
        ({
            let padded = zero_padded(n, width);
            let bare = decimal(n).len();
            let zeros = padded.len() - bare;
            &&& padded.len() == (if bare < width { width } else { bare })
            &&& padded.skip(zeros) == decimal(n)
            &&& forall|i: int| 0 <= i < zeros ==> #[trigger] padded[i] == '0'
        }),
{
    let padded = zero_padded(n, width);
    assert(padded.skip(padded.len() - decimal(n).len()) =~= decimal(n));
}

/// A number below a hundred, padded to two digits, shows its tens and its ones.
pub proof fn two_digits(n: nat)
    requires
        n < 100,
    ensures
        zero_padded(n, 2) == seq!["0123456789"@[n as int / 10], "0123456789"@[n as int % 10]],
{
    reveal_strlit("0123456789");
    reveal_with_fuel(decimal, 3);
    assert(zero_padded(n, 2) =~= seq![
        "0123456789"@[n as int / 10],
        "0123456789"@[n as int % 10],
    ]);
}

/// A number below ten thousand, padded to four digits, shows its thousands, hundreds,
/// tens and ones.
pub proof fn four_digits(n: nat)
    requires
        n < 10000,
    ensures
        zero_padded(n, 4) == seq![
            "0123456789"@[n as int / 1000],
            "0123456789"@[n as int / 100 % 10],
            "0123456789"@[n as int / 10 % 10],
            "0123456789"@[n as int % 10],
        ],
{
    reveal_strlit("0123456789");
    reveal_with_fuel(decimal, 5);
    assert(zero_padded(n, 4) =~= seq![
        "0123456789"@[n as int / 1000],
        "0123456789"@[n as int / 100 % 10],
        "0123456789"@[n as int / 10 % 10],
        "0123456789"@[n as int % 10],
    ]);
}

} // verus!
