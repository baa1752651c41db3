//! The number field that precedes a numbered line.
//!
//! A line number is written in decimal, right-aligned in a field of
//! [`FIELD_WIDTH`] characters, and followed by one tab and the line's text.

use vstd::prelude::*;
use vstd::string::*;

verus! {

/// The least width of the number field, in characters.
pub const FIELD_WIDTH: usize = 6;

/// The character that stands for the digit `d`.
pub open spec fn digit_char(d: nat) -> char
    recommends
        d < 10,
{
    if d == 0 {
        '0'
    } else if d == 1 {
        '1'
    } else if d == 2 {
        '2'
    } else if d == 3 {
        '3'
    } else if d == 4 {
        '4'
    } else if d == 5 {
        '5'
    } else if d == 6 {
        '6'
    } else if d == 7 {
        '7'
    } else if d == 8 {
        '8'
    } else {
        '9'
    }
}

/// The decimal numeral of `n`: most significant digit first, no leading zero
/// but for `0` itself.
pub open spec fn decimal(n: nat) -> Seq<char>
    decreases n,
{
    if n < 10 {
        seq![digit_char(n)]
    } else {
        decimal(n / 10).push(digit_char(n % 10))
    }
}

/// `count` spaces.
pub open spec fn spaces(count: nat) -> Seq<char> {
    Seq::new(count, |i: int| ' ')
}

/// The numeral of `n`, with spaces in front of it until it is `FIELD_WIDTH`
/// characters wide. A longer numeral is kept whole.
pub open spec fn number_field(n: nat) -> Seq<char> {
    let numeral = decimal(n);
    if numeral.len() >= FIELD_WIDTH {
        numeral
    } else {
        spaces((FIELD_WIDTH - numeral.len()) as nat) + numeral
    }
}

/// A numbered output line: the number field, a tab, the text.
pub open spec fn numbered(n: nat, text: Seq<char>) -> Seq<char> {
    number_field(n) + seq!['\t'] + text
}

/// Ten to the power `k`.
pub open spec fn pow10(k: nat) -> nat
    decreases k,
{
    if k == 0 {
        1
    } else {
        10 * pow10((k - 1) as nat)
    }
}

/// Every numeral has a digit.
pub proof fn lemma_decimal_nonempty(n: nat)
    ensures
        decimal(n).len() >= 1,
    decreases n,
{
    if n >= 10 {
        lemma_decimal_nonempty(n / 10);
    }
}

/// A power of ten is at least one.
pub proof fn lemma_pow10_positive(k: nat)
    ensures
        pow10(k) >= 1,
    decreases k,
{
    if k > 0 {
        lemma_pow10_positive((k - 1) as nat);
    }
}

/// A number below `10^k` has a numeral of at most `k` digits, and a number
/// from `10^k` on has one of more than `k`.
pub proof fn lemma_decimal_len(n: nat, k: nat)
    requires
        k >= 1,
    ensures
        n < pow10(k) ==> decimal(n).len() <= k,
        n >= pow10(k) ==> decimal(n).len() > k,
    decreases k,
{
    reveal_with_fuel(pow10, 2);
    lemma_pow10_positive((k - 1) as nat);
    if n >= 10 {
        lemma_decimal_nonempty(n / 10);
        if k > 1 {
            lemma_decimal_len(n / 10, (k - 1) as nat);
        }
    }
}

/// The number field holds the numeral at its right end and spaces before
/// it. It is `FIELD_WIDTH` wide for a number below a million, and as wide as
/// the numeral from there on.
pub proof fn lemma_number_field_right_aligned(n: nat)
    ensures
        number_field(n).len() == if decimal(n).len() >= FIELD_WIDTH {
            decimal(n).len()
        } else {
            FIELD_WIDTH as nat
        },
        n < 1_000_000 <==> number_field(n).len() == FIELD_WIDTH,
        number_field(n).subrange(
            number_field(n).len() - decimal(n).len(),
            number_field(n).len() as int,
        ) == decimal(n),
        forall|i: int|
            0 <= i < number_field(n).len() - decimal(n).len() ==> #[trigger] number_field(n)[i]
                == ' ',
{
    reveal_with_fuel(pow10, 7);
    lemma_decimal_len(n, 6);
    lemma_decimal_nonempty(n);
    let field = number_field(n);
    assert(field.subrange(field.len() - decimal(n).len(), field.len() as int) =~= decimal(n));
}

/// The one-character string of a digit.
fn digit_str(d: u64) -> (r: &'static str)
    requires
        d < 10,
    ensures
        r@ == seq![digit_char(d as nat)],
{
    proof {
        reveal_strlit("0");
        reveal_strlit("1");
        reveal_strlit("2");
        reveal_strlit("3");
        reveal_strlit("4");
        reveal_strlit("5");
        reveal_strlit("6");
        reveal_strlit("7");
        reveal_strlit("8");
        reveal_strlit("9");
    }
    let r = if d == 0 {
        "0"
    } else if d == 1 {
        "1"
    } else if d == 2 {
        "2"
    } else if d == 3 {
        "3"
    } else if d == 4 {
        "4"
    } else if d == 5 {
        "5"
    } else if d == 6 {
        "6"
    } else if d == 7 {
        "7"
    } else if d == 8 {
        "8"
    } else {
        "9"
    };
    assert(r@ =~= seq![digit_char(d as nat)]);
    r
}

/// Appends the decimal numeral of `n` to `out`.
fn append_decimal(out: &mut String, n: u64)
    ensures
        final(out)@ == old(out)@ + decimal(n as nat),
    decreases n,
{
    if n >= 10 {
        append_decimal(out, n / 10);
    }
    out.append(digit_str(n % 10));
    proof {
        assert(final(out)@ =~= old(out)@ + decimal(n as nat));
    }
}

/// The number of digits in the decimal numeral of `n`.
fn decimal_len(n: u64) -> (r: usize)
    ensures
        r == decimal(n as nat).len(),
        1 <= r <= 20,
{
    let mut rest: u64 = n;
    let mut count: usize = 1;
    proof {
        reveal_with_fuel(pow10, 21);
        lemma_decimal_len(n as nat, 20);
    }
    while rest >= 10
        invariant
            1 <= count,
            count + decimal(rest as nat).len() == decimal(n as nat).len() + 1,
            decimal(n as nat).len() <= 20,
        decreases rest,
    {
        rest = rest / 10;
        count = count + 1;
    }
    count
}

/// Builds a numbered output line: `n` right-aligned in a field of
/// `FIELD_WIDTH` characters, one tab, then `text`.
pub fn numbered_line(n: u64, text: &str) -> (r: String)
    ensures
        r@ == numbered(n as nat, text@),
{
    let digits: usize = decimal_len(n);
    let mut out = String::new();
    let mut pad: usize = 0;
    while pad + digits < FIELD_WIDTH
        invariant
            out@ == spaces(pad as nat),
            digits == decimal(n as nat).len(),
            pad + digits <= FIELD_WIDTH || pad == 0,
        decreases FIELD_WIDTH - pad,
    {
        proof {
            reveal_strlit(" ");
        }
        out.append(" ");
        pad = pad + 1;
        assert(out@ =~= spaces(pad as nat));
    }
    append_decimal(&mut out, n);
    proof {
        reveal_strlit("\t");
    }
    out.append("\t");
    out.append(text);
    assert(out@ =~= numbered(n as nat, text@));
    out
}

} // verus!
