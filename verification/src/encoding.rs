use vstd::prelude::*;
use vstd::string::StringExecFns;

verus! {

/// The sixteen lowercase hexadecimal digits, in order of their value.
pub open spec fn lower_digits() -> Seq<char> {
    seq!['0', '1', '2', '3', '4', '5', '6', '7', '8', '9', 'a', 'b', 'c', 'd', 'e', 'f']
}

/// The hexadecimal digits of `n`, most significant first, without leading
/// zeros; the single digit `0` for zero.
pub open spec fn hex_digits(n: nat) -> Seq<char>
    decreases n,
{
    if n < 16 {
        seq![lower_digits()[n as int]]
    } else {
        hex_digits(n / 16).push(lower_digits()[(n % 16) as int])
    }
}

/// The text by which a block number is sent to the node: `0x`, then the
/// number's hexadecimal digits.
pub open spec fn block_number_text(n: nat) -> Seq<char> {
    seq!['0', 'x'] + hex_digits(n)
}

/// The value of a hexadecimal digit of either case.
pub open spec fn nibble(c: char) -> Option<int> {
    if '0' <= c <= '9' {
        Some(c as int - '0' as int)
    } else if 'a' <= c <= 'f' {
        Some(c as int - 'a' as int + 10)
    } else if 'A' <= c <= 'F' {
        Some(c as int - 'A' as int + 10)
    } else {
        None
    }
}

/// The number that a sequence of hexadecimal digits denotes; a character
/// that is no digit counts as zero.
pub open spec fn hex_number(digits: Seq<char>) -> nat
    decreases digits.len(),
{
    if digits.len() == 0 {
        0
    } else {
        let low = match nibble(digits.last()) {
            Some(v) => v as nat,
            None => 0,
        };
        hex_number(digits.drop_last()) * 16 + low
    }
}

/// Whether `text` encodes bytes: an even number of hexadecimal digits.
pub open spec fn is_hex_text(text: Seq<char>) -> bool {
    &&& text.len() % 2 == 0
    &&& forall|i: int| 0 <= i < text.len() ==> (#[trigger] nibble(text[i])) is Some
}

/// The bytes that `text` encodes, two digits to a byte, high digit first.
pub open spec fn hex_bytes(text: Seq<char>) -> Seq<u8> {
    Seq::new(
        text.len() / 2,
        |i: int| (16 * nibble(text[2 * i]).unwrap() + nibble(text[2 * i + 1]).unwrap()) as u8,
    )
}

/// Whether `c` is a digit or one of the lowercase letters `a` to `f`.
pub open spec fn is_lower_hex_digit(c: char) -> bool {
    ('0' <= c <= '9') || ('a' <= c <= 'f')
}

/// The digits of a number are lowercase, begin with a zero only for zero,
/// whose digits are the one character `0`, and denote the number.
pub proof fn lemma_hex_digits_canonical(n: nat)
    ensures
        hex_digits(n).len() >= 1,
        forall|i: int| 0 <= i < hex_digits(n).len() ==> is_lower_hex_digit(#[trigger] hex_digits(n)[i]),
        hex_digits(n)[0] == '0' <==> n == 0,
        n == 0 ==> hex_digits(n) == seq!['0'],
        hex_number(hex_digits(n)) == n,
    decreases n,
{
    let low = lower_digits()[(n % 16) as int];
    assert(is_lower_hex_digit(low) && nibble(low) == Some((n % 16) as int));
    if n < 16 {
        let d = hex_digits(n);
        assert(d.drop_last() =~= Seq::<char>::empty());
        assert(hex_number(d.drop_last()) == 0);
        assert(d.last() == low);
    } else {
        lemma_hex_digits_canonical(n / 16);
        let high = hex_digits(n / 16);
        let d = hex_digits(n);
        assert(d == high.push(low));
        assert(d.drop_last() =~= high);
        assert(d.last() == low);
        assert(d[0] == high[0]);
        assert forall|i: int| 0 <= i < d.len() implies is_lower_hex_digit(#[trigger] d[i]) by {
            if i < high.len() {
                assert(d[i] == high[i]);
            }
        }
    }
}

/// The text of a block number is `0x` followed by lowercase hexadecimal
/// digits that denote the number, with no leading zero but the one digit of
/// zero itself.
pub proof fn lemma_block_number_text_canonical(n: nat)
    ensures
        block_number_text(n).len() >= 3,
        block_number_text(n)[0] == '0',
        block_number_text(n)[1] == 'x',
        forall|i: int|
            2 <= i < block_number_text(n).len() ==> is_lower_hex_digit(
                #[trigger] block_number_text(n)[i],
            ),
        block_number_text(n)[2] == '0' <==> n == 0,
        n == 0 ==> block_number_text(n) == seq!['0', 'x', '0'],
        hex_number(block_number_text(n).skip(2)) == n,
{
    lemma_hex_digits_canonical(n);
    let t = block_number_text(n);
    let d = hex_digits(n);
    assert(t.skip(2) =~= d);
    assert forall|i: int| 2 <= i < t.len() implies is_lower_hex_digit(#[trigger] t[i]) by {
        assert(t[i] == d[i - 2]);
    }
    if n == 0 {
        assert(t =~= seq!['0', 'x', '0']);
    }
}

fn digit_text(d: u8) -> (text: &'static str)
    requires
        d < 16,
    ensures
        text@ == seq![lower_digits()[d as int]],
{
    proof {
        reveal_strlit("0");
        reveal_strlit("1");
        reveal_strlit("2");
        reveal_strlit("3");
        reveal_strlit("4");
        reveal_strlit("5");
        reveal_strlit("6");
        reveal_strlit("7");
        reveal_strlit("8");
        reveal_strlit("9");
        reveal_strlit("a");
        reveal_strlit("b");
        reveal_strlit("c");
        reveal_strlit("d");
        reveal_strlit("e");
        reveal_strlit("f");
    }
    let text = match d {
        0 => "0",
        1 => "1",
        2 => "2",
        3 => "3",
        4 => "4",
        5 => "5",
        6 => "6",
        7 => "7",
        8 => "8",
        9 => "9",
        10 => "a",
        11 => "b",
        12 => "c",
        13 => "d",
        14 => "e",
        _ => "f",
    };
    assert(text@ =~= seq![lower_digits()[d as int]]);
    text
}

fn push_hex_digits(n: u64, out: &mut String)
    ensures
        final(out)@ == old(out)@ + hex_digits(n as nat),
    decreases n,
{
    if n >= 16 {
        push_hex_digits(n / 16, out);
    }
    out.append(digit_text((n % 16) as u8));
    proof {
        let digit = lower_digits()[(n % 16) as int];
        if n >= 16 {
            assert(old(out)@ + hex_digits((n / 16) as nat) + seq![digit] =~= old(out)@
                + hex_digits((n / 16) as nat).push(digit));
        }
    }
}

/// Writes a block number the way the node expects it as a parameter.
pub fn block_number_hex(n: u64) -> (text: String)
    ensures
        text@ == block_number_text(n as nat),
{
    proof {
        reveal_strlit("0x");
    }
    let mut text = String::from_str("0x");
    assert(text@ =~= seq!['0', 'x']);
    push_hex_digits(n, &mut text);
    text
}

/// Takes the two-character prefix off `text`.
///
/// The prefix is not inspected: whatever the first two characters are, they
/// are dropped. A text of fewer than two characters has no remainder.
pub fn strip_prefix(text: &str) -> (rest: Option<&str>)
    ensures
        match rest {
            Some(r) => text@.len() >= 2 && r@ == text@.skip(2),
            None => text@.len() < 2,
        },
{
    let n = text.unicode_len();
    if n < 2 {
        None
    } else {
        let r = text.substring_char(2, n);
        assert(text@.subrange(2, n as int) =~= text@.skip(2));
        Some(r)
    }
}

/// The error of the `hex` crate, carried as it comes.
#[verifier::external_type_specification]
#[verifier::external_body]
pub struct ExFromHexError(hex::FromHexError);

/// Decodes hexadecimal text with `hex::decode`.
///
/// The contract restates that function: it succeeds exactly on an even
/// number of hexadecimal digits of either case, and then yields one byte for
/// each pair of digits, the first digit of a pair being the high half.
#[verifier::external_body]
pub(crate) fn decode_hex(text: &str) -> (decoded: Result<Vec<u8>, hex::FromHexError>)
    ensures
        decoded is Ok <==> is_hex_text(text@),
        decoded matches Ok(bytes) ==> bytes@ == hex_bytes(text@),
{
    hex::decode(text)
}

} // verus!
