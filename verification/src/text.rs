//! The text of numbers and byte strings in error messages.

use vstd::arithmetic::div_mod::lemma_div_denominator;
use vstd::arithmetic::power::{lemma_pow0, lemma_pow1, lemma_pow_positive, pow};
use vstd::prelude::*;
use vstd::string::StringExecFns;

verus! {

/// The decimal digit for a number below ten.
pub open spec fn digit(d: nat) -> char {
    ('0' as nat + d) as char
}

/// A number in decimal, without leading zeros.
pub open spec fn decimal(n: nat) -> Seq<char>
    decreases n,
{
    if n < 10 {
        seq![digit(n)]
    } else {
        decimal(n / 10).push(digit(n % 10))
    }
}

/// Bytes in decimal, with a comma and a blank between neighbours.
pub open spec fn joined(bytes: Seq<u8>) -> Seq<char>
    decreases bytes.len(),
{
    if bytes.len() == 0 {
        Seq::empty()
    } else if bytes.len() == 1 {
        decimal(bytes[0] as nat)
    } else {
        joined(bytes.drop_last()) + ", "@ + decimal(bytes.last() as nat)
    }
}

/// Bytes as a list in square brackets.
pub open spec fn byte_list(bytes: Seq<u8>) -> Seq<char> {
    "["@ + joined(bytes) + "]"@
}

/// The decimal text of a number is its digits in base ten, the highest first, as
/// many as it needs: the last is its remainder by ten, the one before it that of
/// a tenth, and so on, and zero alone begins with a zero.
pub proof fn law_decimal_is_base_ten(n: nat)
    ensures
        decimal(n).len() >= 1,
        n < pow(10, decimal(n).len()),
        decimal(n).len() > 1 ==> pow(10, (decimal(n).len() - 1) as nat) <= n,
        forall|i: int|
            0 <= i < decimal(n).len() ==> #[trigger] decimal(n)[i] as int == '0' as int + n as int
                / pow(10, (decimal(n).len() - 1 - i) as nat) % 10,
    decreases n,
{
    lemma_pow0(10);
    lemma_pow1(10);
    if n >= 10 {
        let tenth = n / 10;
        law_decimal_is_base_ten(tenth);
        let len = decimal(tenth).len();
        assert(pow(10, len + 1) == 10 * pow(10, len)) by {
            reveal(pow);
        }
        assert(pow(10, len) == 10 * pow(10, (len - 1) as nat)) by {
            reveal(pow);
        }
        assert forall|i: int| 0 <= i < decimal(n).len() implies #[trigger] decimal(n)[i] as int
            == '0' as int + n as int / pow(10, (decimal(n).len() - 1 - i) as nat) % 10 by {
            if i < len {
                let rest = (len - 1 - i) as nat;
                assert(decimal(n)[i] == decimal(tenth)[i]);
                assert(pow(10, rest + 1) == 10 * pow(10, rest)) by {
                    reveal(pow);
                }
                lemma_pow_positive(10, rest);
                lemma_div_denominator(n as int, 10, pow(10, rest));
            }
        }
    }
}

/// The list of no bytes is a pair of brackets, that of one byte has its number
/// between them, and another byte adds a comma, a blank and its number before the
/// closing bracket.
pub proof fn law_byte_list_grows_by_items(bytes: Seq<u8>, next: u8)
    ensures
        byte_list(Seq::empty()) == seq!['[', ']'],
        byte_list(seq![next]) == seq!['['] + decimal(next as nat) + seq![']'],
        bytes.len() > 0 ==> byte_list(bytes.push(next)) == byte_list(bytes).drop_last() + seq![
            ',',
            ' ',
        ] + decimal(next as nat) + seq![']'],
{
    reveal_strlit("[");
    reveal_strlit("]");
    reveal_strlit(", ");
    assert("["@ == seq!['[']);
    assert("]"@ == seq![']']);
    assert(", "@ == seq![',', ' ']);
    assert(bytes.push(next).drop_last() == bytes);
    assert(byte_list(bytes).drop_last() == "["@ + joined(bytes));
}

fn digit_str(d: u64) -> (s: &'static str)
    requires
        d < 10,
    ensures
        s@ == seq![digit(d as nat)],
{
    proof {
        reveal_strlit("0");
        reveal_strlit("1");
        reveal_strlit("2");
        reveal_strlit("3");
        reveal_strlit("4");
        reveal_strlit("5");
        reveal_strlit("6");
        reveal_strlit("7");
        reveal_strlit("8");
        reveal_strlit("9");
    }
    match d {
        0 => "0",
        1 => "1",
        2 => "2",
        3 => "3",
        4 => "4",
        5 => "5",
        6 => "6",
        7 => "7",
        8 => "8",
        _ => "9",
    }
}

/// Appends `n` in decimal.
pub fn push_decimal(out: &mut String, n: u64)
    ensures
        final(out)@ == old(out)@ + decimal(n as nat),
    decreases n,
{
    if n >= 10 {
        push_decimal(out, n / 10);
    }
    out.append(digit_str(n % 10));
}

/// Appends `bytes` as a list in square brackets.
pub fn push_byte_list(out: &mut String, bytes: &[u8])
    ensures
        final(out)@ == old(out)@ + byte_list(bytes@),
{
    out.append("[");
    let ghost start = out@;
    let mut i: usize = 0;
    while i < bytes.len()
        invariant
            i <= bytes.len(),
            out@ == start + joined(bytes@.take(i as int)),
        decreases bytes.len() - i,
    {
        if i > 0 {
            out.append(", ");
        }
        push_decimal(out, bytes[i] as u64);
        proof {
            let next = bytes@.take(i + 1);
            assert(next.drop_last() == bytes@.take(i as int));
            assert(next.last() == bytes@[i as int]);
        }
        i = i + 1;
    }
    out.append("]");
    assert(bytes@.take(i as int) == bytes@);
}

} // verus!
