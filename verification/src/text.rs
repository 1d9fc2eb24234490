//! The pieces of text that a scoreboard is made of.

use vstd::prelude::*;
use vstd::string::*;

verus! {

/// The numeral of a single digit.
pub open spec fn digit(d: nat) -> char {
    if d == 0 {
        '0'
    } else if d == 1 {
        '1'
    } else if d == 2 {
        '2'
    } else if d == 3 {
        '3'
    } else if d == 4 {
        '4'
    } else if d == 5 {
        '5'
    } else if d == 6 {
        '6'
    } else if d == 7 {
        '7'
    } else if d == 8 {
        '8'
    } else {
        '9'
    }
}

/// The decimal numeral of `n`, without leading zeros.
pub open spec fn decimal(n: nat) -> Seq<char>
    decreases n,
{
    if n < 10 {
        seq![digit(n)]
    } else {
        decimal(n / 10).push(digit(n % 10))
    }
}

/// `part` written `times` times over.
pub open spec fn repeated(part: Seq<char>, times: nat) -> Seq<char>
    decreases times,
{
    if times == 0 {
        Seq::empty()
    } else {
        repeated(part, (times - 1) as nat) + part
    }
}

/// `text` moved to the right end of a field `width` characters wide, with
/// blanks before it. A text that is wider than the field stays whole.
pub open spec fn right_aligned(text: Seq<char>, width: nat) -> Seq<char> {
    if text.len() < width {
        repeated(seq![' '], (width - text.len()) as nat) + text
    } else {
        text
    }
}

/// What the scoreboard shows for the pins of a roll: a dash for none, else
/// their number.
pub open spec fn glyph(pins: nat) -> Seq<char> {
    if pins == 0 {
        seq!['-']
    } else {
        decimal(pins)
    }
}

/// The number that a digit stands for.
pub open spec fn digit_value(c: char) -> nat {
    if c == '1' {
        1
    } else if c == '2' {
        2
    } else if c == '3' {
        3
    } else if c == '4' {
        4
    } else if c == '5' {
        5
    } else if c == '6' {
        6
    } else if c == '7' {
        7
    } else if c == '8' {
        8
    } else if c == '9' {
        9
    } else {
        0
    }
}

/// The number that a row of digits stands for, read in base ten.
pub open spec fn numeral_value(digits: Seq<char>) -> nat
    decreases digits.len(),
{
    if digits.len() == 0 {
        0
    } else {
        10 * numeral_value(digits.drop_last()) + digit_value(digits.last())
    }
}

/// A numeral reads back as its number, and only the numeral of zero begins
/// with a zero.
pub proof fn lemma_decimal_reads_back(n: nat)
    ensures
        numeral_value(decimal(n)) == n,
        n > 0 ==> decimal(n)[0] != '0',
    decreases n,
{
    if n < 10 {
        assert(decimal(n).drop_last() =~= Seq::<char>::empty());
        assert(numeral_value(Seq::<char>::empty()) == 0);
    } else {
        lemma_decimal_reads_back(n / 10);
        lemma_decimal_len(n / 10);
        assert(decimal(n).drop_last() =~= decimal(n / 10));
    }
}

/// A part written over is as long as its copies together.
pub proof fn lemma_repeated_len(part: Seq<char>, times: nat)
    ensures
        repeated(part, times).len() == times * part.len(),
    decreases times,
{
    let len = part.len();
    if times > 0 {
        lemma_repeated_len(part, (times - 1) as nat);
        assert((times - 1) * len + len == times * len) by (nonlinear_arith);
    } else {
        assert(times * len == 0) by (nonlinear_arith)
            requires
                times == 0,
        ;
    }
}

/// A numeral has one digit below ten, two below a hundred, three below a
/// thousand, and never fewer than one.
pub proof fn lemma_decimal_len(n: nat)
    ensures
        decimal(n).len() >= 1,
        n < 10 ==> decimal(n).len() == 1,
        10 <= n < 100 ==> decimal(n).len() == 2,
        100 <= n < 1000 ==> decimal(n).len() == 3,
    decreases n,
{
    if n >= 10 {
        lemma_decimal_len(n / 10);
    }
}

/// A right-aligned text fills its field, or is as long as it was where it
/// does not fit.
pub proof fn lemma_right_aligned_len(text: Seq<char>, width: nat)
    ensures
        right_aligned(text, width).len() == if text.len() < width {
            width
        } else {
            text.len()
        },
{
    if text.len() < width {
        let blanks = (width - text.len()) as nat;
        lemma_repeated_len(seq![' '], blanks);
        assert(blanks * 1 == blanks) by (nonlinear_arith);
    }
}

/// The pins of a roll take one character on the scoreboard, but for ten
/// pins, which take two.
pub proof fn lemma_glyph_len(pins: nat)
    requires
        pins <= 10,
    ensures
        glyph(pins).len() == if pins == 10 {
            2nat
        } else {
            1nat
        },
{
    lemma_decimal_len(pins);
}

/// The numeral of a single digit.
fn digit_str(d: u16) -> (numeral: &'static str)
    requires
        d < 10,
    ensures
        numeral@ == seq![digit(d as nat)],
{
    proof {
        reveal_strlit("0");
        reveal_strlit("1");
        reveal_strlit("2");
        reveal_strlit("3");
        reveal_strlit("4");
        reveal_strlit("5");
        reveal_strlit("6");
        reveal_strlit("7");
        reveal_strlit("8");
        reveal_strlit("9");
    }
    let numeral = if d == 0 {
        "0"
    } else if d == 1 {
        "1"
    } else if d == 2 {
        "2"
    } else if d == 3 {
        "3"
    } else if d == 4 {
        "4"
    } else if d == 5 {
        "5"
    } else if d == 6 {
        "6"
    } else if d == 7 {
        "7"
    } else if d == 8 {
        "8"
    } else {
        "9"
    };
    assert(numeral@ =~= seq![digit(d as nat)]);
    numeral
}

/// Writes `n` in decimal.
pub fn to_decimal(n: u16) -> (numeral: String)
    ensures
        numeral@ == decimal(n as nat),
    decreases n,
{
    if n < 10 {
        String::from_str(digit_str(n))
    } else {
        let mut numeral = to_decimal(n / 10);
        numeral.append(digit_str(n % 10));
        assert(numeral@ =~= decimal(n as nat));
        numeral
    }
}

/// Writes `part` `times` times over.
pub fn repeat(part: &str, times: usize) -> (text: String)
    ensures
        text@ == repeated(part@, times as nat),
{
    let mut text = String::new();
    let mut i: usize = 0;
    while i < times
        invariant
            i <= times,
            text@ == repeated(part@, i as nat),
        decreases times - i,
    {
        text.append(part);
        i = i + 1;
    }
    text
}

/// Moves `text` to the right end of a field `width` characters wide.
pub fn align_right(text: &str, width: usize) -> (field: String)
    ensures
        field@ == right_aligned(text@, width as nat),
{
    let len = text.unicode_len();
    if len < width {
        proof {
            reveal_strlit(" ");
            assert(" "@ =~= seq![' ']);
        }
        let mut field = repeat(" ", width - len);
        field.append(text);
        field
    } else {
        String::from_str(text)
    }
}

/// Writes the pins of a roll as the scoreboard shows them.
pub fn format_number(input: u16) -> (text: String)
    ensures
        text@ == glyph(input as nat),
{
    if input == 0 {
        proof {
            reveal_strlit("-");
            assert("-"@ =~= seq!['-']);
        }
        String::from_str("-")
    } else {
        to_decimal(input)
    }
}

} // verus!
