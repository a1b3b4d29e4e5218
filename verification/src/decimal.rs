//! Numbers in decimal digits.
use vstd::prelude::*;

use crate::order;
use crate::text::cat2;

verus! {

/// The decimal digit for `n`, which is below ten.
pub open spec fn digit(n: nat) -> char {
    (('0' as nat) + n) as char
}

/// `n` in decimal digits, without leading zeros.
pub open spec fn decimal(n: nat) -> Seq<char>
    decreases n,
{
    if n < 10 {
        seq![digit(n)]
    } else {
        decimal(n / 10).push(digit(n % 10))
    }
}

/// `n` in decimal digits, with zeros in front to make at least `width` of them.
pub open spec fn padded(n: nat, width: nat) -> Seq<char> {
    let d = decimal(n);
    if d.len() < width {
        Seq::new((width - d.len()) as nat, |i: int| '0') + d
    } else {
        d
    }
}

/// Whether a character is a decimal digit.
pub open spec fn is_digit(c: char) -> bool {
    '0' <= c && c <= '9'
}

/// Whether a character is a decimal digit.
pub fn digit_char(c: char) -> (r: bool)
    ensures
        r == is_digit(c),
{
    '0' <= c && c <= '9'
}

/// A number in decimals is made of digits.
pub proof fn lemma_decimal_digits(n: nat)
    ensures
        decimal(n).len() > 0,
        forall|i: int| 0 <= i < decimal(n).len() ==> is_digit(#[trigger] decimal(n)[i]),
    decreases n,
{
    if n >= 10 {
        lemma_decimal_digits(n / 10);
    }
}

/// A number in decimals with zeros in front is made of digits.
pub proof fn lemma_padded_digits(n: nat, width: nat)
    ensures
        padded(n, width).len() >= width,
        forall|i: int| 0 <= i < padded(n, width).len() ==> is_digit(#[trigger] padded(n, width)[i]),
{
    lemma_decimal_digits(n);
}

/// Two digits hold every number below a hundred and sort as the numbers do.
pub proof fn lemma_padded_2(a: nat, b: nat)
    requires
        a < 100,
        b < 100,
    ensures
        padded(a, 2).len() == 2,
        padded(b, 2).len() == 2,
        a < b ==> order::less(padded(a, 2), padded(b, 2)),
{
    reveal_with_fuel(decimal, 3);
    reveal_with_fuel(order::less, 3);
    assert(padded(a, 2) =~= seq![digit(a / 10), digit(a % 10)]);
    assert(padded(b, 2) =~= seq![digit(b / 10), digit(b % 10)]);
}

/// Four digits hold every number below ten thousand and sort as the numbers do.
pub proof fn lemma_padded_4(a: nat, b: nat)
    requires
        a < 10000,
        b < 10000,
    ensures
        padded(a, 4).len() == 4,
        padded(b, 4).len() == 4,
        a < b ==> order::less(padded(a, 4), padded(b, 4)),
{
    reveal_with_fuel(decimal, 5);
    reveal_with_fuel(order::less, 5);
    let x = seq![digit(a / 1000), digit(a / 100 % 10), digit(a / 10 % 10), digit(a % 10)];
    let y = seq![digit(b / 1000), digit(b / 100 % 10), digit(b / 10 % 10), digit(b % 10)];
    assert(padded(a, 4) =~= x);
    assert(padded(b, 4) =~= y);
}

fn digit_of(n: u64) -> (c: char)
    requires
        n < 10,
    ensures
        c == digit(n as nat),
{
    if n == 0 {
        '0'
    } else if n == 1 {
        '1'
    } else if n == 2 {
        '2'
    } else if n == 3 {
        '3'
    } else if n == 4 {
        '4'
    } else if n == 5 {
        '5'
    } else if n == 6 {
        '6'
    } else if n == 7 {
        '7'
    } else if n == 8 {
        '8'
    } else {
        '9'
    }
}

/// `n` in decimal digits.
pub fn decimal_of(n: u64) -> (s: String)
    ensures
        s@ == decimal(n as nat),
    decreases n,
{
    if n < 10 {
        let mut s = String::new();
        s.push(digit_of(n));
        s
    } else {
        let mut s = decimal_of(n / 10);
        s.push(digit_of(n % 10));
        s
    }
}

/// `n` in decimal digits, with zeros in front to make at least `width` of them.
pub fn padded_of(n: u64, width: usize) -> (s: String)
    ensures
        s@ == padded(n as nat, width as nat),
{
    let d = decimal_of(n);
    let len = d.as_str().unicode_len();
    let mut zeros = String::new();
    let mut i: usize = len;
    while i < width
        invariant
            len <= i,
            i <= width || i == len,
            zeros@ =~= Seq::new((i - len) as nat, |i: int| '0'),
        decreases width - i,
    {
        zeros.push('0');
        i = i + 1;
    }
    let s = cat2(zeros.as_str(), d.as_str());
    assert(s@ =~= padded(n as nat, width as nat));
    s
}

/// The number that decimal digits stand for.
pub open spec fn number_in(s: Seq<char>) -> int
    decreases s.len(),
{
    if s.len() == 0 {
        0
    } else {
        10 * number_in(s.drop_last()) + (s.last() as int - '0' as int)
    }
}

/// A number is read back from its digits, which begin with no zero but that of zero itself.
pub proof fn digits_give_back_the_number(n: nat)
    ensures
        number_in(decimal(n)) == n,
        decimal(n).len() > 1 ==> decimal(n)[0] != '0',
    decreases n,
{
    reveal_with_fuel(number_in, 2);
    if n < 10 {
        assert(decimal(n).drop_last() =~= Seq::empty());
    } else {
        digits_give_back_the_number(n / 10);
        lemma_decimal_digits(n / 10);
        assert(decimal(n).drop_last() =~= decimal(n / 10));
        if n / 10 < 10 {
            assert(decimal(n)[0] == digit(n / 10));
        } else {
            assert(decimal(n / 10).len() > 1) by {
                lemma_decimal_digits(n / 10 / 10);
            }
        }
    }
}

/// Zeros in front do not count.
proof fn lemma_zeros_in_front(k: nat, s: Seq<char>)
    ensures
        number_in(Seq::new(k, |i: int| '0') + s) == number_in(s),
    decreases k + s.len(),
{
    let zeros = Seq::new(k, |i: int| '0');
    let all = zeros + s;
    if s.len() > 0 {
        assert(all.drop_last() =~= zeros + s.drop_last());
        lemma_zeros_in_front(k, s.drop_last());
    } else if k > 0 {
        assert(all.drop_last() =~= Seq::new((k - 1) as nat, |i: int| '0') + s);
        lemma_zeros_in_front((k - 1) as nat, s);
    } else {
        assert(all =~= s);
    }
}

/// A number is read back from its digits with zeros in front, of which there are as many as
/// the width asks for and no more.
pub proof fn padding_keeps_the_number(n: nat, width: nat)
    ensures
        number_in(padded(n, width)) == n,
        padded(n, width).len() == (if decimal(n).len() < width {
            width
        } else {
            decimal(n).len()
        }),
{
    digits_give_back_the_number(n);
    if decimal(n).len() < width {
        lemma_zeros_in_front((width - decimal(n).len()) as nat, decimal(n));
    }
}

} // verus!
