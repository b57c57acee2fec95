//! Text forms: decimal numbers and bracketed lists of them.

use vstd::prelude::*;
use vstd::string::*;

verus! {

/// The character of the decimal digit `d`.
pub open spec fn digit_char(d: nat) -> char
    recommends
        d < 10,
{
    if d == 0 {
        '0'
    } else if d == 1 {
        '1'
    } else if d == 2 {
        '2'
    } else if d == 3 {
        '3'
    } else if d == 4 {
        '4'
    } else if d == 5 {
        '5'
    } else if d == 6 {
        '6'
    } else if d == 7 {
        '7'
    } else if d == 8 {
        '8'
    } else {
        '9'
    }
}

/// The decimal numeral of `n`: most significant digit first, no leading zero
/// but for `0` itself.
pub open spec fn decimal(n: nat) -> Seq<char>
    decreases n,
{
    if n < 10 {
        seq![digit_char(n)]
    } else {
        decimal(n / 10).push(digit_char(n % 10))
    }
}

/// The numerals of `values` in order, with `", "` between neighbours.
pub open spec fn joined(values: Seq<u32>) -> Seq<char>
    decreases values.len(),
{
    if values.len() == 0 {
        Seq::empty()
    } else if values.len() == 1 {
        decimal(values[0] as nat)
    } else {
        joined(values.drop_last()) + seq![',', ' '] + decimal(values.last() as nat)
    }
}

/// The list form of `values`: `[` and `]` around [`joined`].
pub open spec fn list_text(values: Seq<u32>) -> Seq<char> {
    seq!['['] + joined(values) + seq![']']
}

/// The one-character text of the digit `d`.
fn digit_text(d: u32) -> (text: &'static str)
    requires
        d < 10,
    ensures
        text@ == seq![digit_char(d as nat)],
{
    proof {
        reveal_strlit("0");
        reveal_strlit("1");
        reveal_strlit("2");
        reveal_strlit("3");
        reveal_strlit("4");
        reveal_strlit("5");
        reveal_strlit("6");
        reveal_strlit("7");
        reveal_strlit("8");
        reveal_strlit("9");
    }
    let text = if d == 0 {
        "0"
    } else if d == 1 {
        "1"
    } else if d == 2 {
        "2"
    } else if d == 3 {
        "3"
    } else if d == 4 {
        "4"
    } else if d == 5 {
        "5"
    } else if d == 6 {
        "6"
    } else if d == 7 {
        "7"
    } else if d == 8 {
        "8"
    } else {
        "9"
    };
    assert(text@ =~= seq![digit_char(d as nat)]);
    text
}

/// Writes the decimal numeral of `n` at the end of `out`.
pub fn append_decimal(out: &mut String, n: u32)
    ensures
        final(out)@ == old(out)@ + decimal(n as nat),
    decreases n,
{
    if n >= 10 {
        append_decimal(out, n / 10);
    }
    out.append(digit_text(n % 10));
}

/// The decimal numeral of `n` as a string.
pub fn decimal_string(n: u32) -> (text: String)
    ensures
        text@ == decimal(n as nat),
{
    let mut text = String::new();
    append_decimal(&mut text, n);
    text
}

/// Renders `values` as a bracketed list, `[3, 7]` for the values 3 and 7 and
/// `[]` for none.
pub fn render_list(values: &Vec<u32>) -> (text: String)
    ensures
        text@ == list_text(values@),
{
    let mut text = String::new();
    proof {
        reveal_strlit("[");
        reveal_strlit(", ");
        reveal_strlit("]");
    }
    text.append("[");
    let mut i: usize = 0;
    while i < values.len()
        invariant
            i <= values.len(),
            text@ == seq!['['] + joined(values@.take(i as int)),
            ", "@ == seq![',', ' '],
        decreases values.len() - i,
    {
        if i > 0 {
            text.append(", ");
        }
        append_decimal(&mut text, values[i]);
        proof {
            let before = values@.take(i as int);
            let after = values@.take(i + 1);
            assert(after.drop_last() =~= before);
            assert(after.last() == values@[i as int]);
        }
        i = i + 1;
    }
    assert(values@.take(i as int) =~= values@);
    text.append("]");
    text
}

} // verus!
