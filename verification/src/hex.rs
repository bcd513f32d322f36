//! Lower-case hexadecimal text: two digits per byte, the high half first.

use vstd::prelude::*;
use vstd::string::StringExecFns;

verus! {

/// The sixteen digits, in order of their value.
pub open spec fn digits() -> Seq<char> {
    seq!['0', '1', '2', '3', '4', '5', '6', '7', '8', '9', 'a', 'b', 'c', 'd', 'e', 'f']
}

/// The digit that stands for `n`, for `n` below 16.
pub open spec fn digit_of(n: int) -> char {
    digits()[n]
}

/// The value of a digit; -1 for a character that is no lower-case hex digit.
pub open spec fn value_of(c: char) -> int {
    if '0' <= c <= '9' {
        c as int - '0' as int
    } else if 'a' <= c <= 'f' {
        c as int - 'a' as int + 10
    } else {
        -1
    }
}

/// The hexadecimal text of `bytes`: character `2 i` is the high half of byte
/// `i`, character `2 i + 1` its low half.
pub open spec fn hex_of(bytes: Seq<u8>) -> Seq<char> {
    Seq::new(
        2 * bytes.len(),
        |k: int|
            if k % 2 == 0 {
                digit_of(bytes[k / 2] as int / 16)
            } else {
                digit_of(bytes[k / 2] as int % 16)
            },
    )
}

/// The bytes that hexadecimal text stands for, two characters to a byte.
pub open spec fn bytes_of(text: Seq<char>) -> Seq<u8> {
    Seq::new(
        text.len() / 2,
        |i: int| (16 * value_of(text[2 * i]) + value_of(text[2 * i + 1])) as u8,
    )
}

/// The one-character text of the digit for `n`.
fn digit_text(n: u8) -> (text: &'static str)
    requires
        n < 16,
    ensures
        text@ == seq![digit_of(n as int)],
{
    proof {
        reveal_strlit("0");
        reveal_strlit("1");
        reveal_strlit("2");
        reveal_strlit("3");
        reveal_strlit("4");
        reveal_strlit("5");
        reveal_strlit("6");
        reveal_strlit("7");
        reveal_strlit("8");
        reveal_strlit("9");
        reveal_strlit("a");
        reveal_strlit("b");
        reveal_strlit("c");
        reveal_strlit("d");
        reveal_strlit("e");
        reveal_strlit("f");
    }
    let text: &'static str = match n {
        0 => "0",
        1 => "1",
        2 => "2",
        3 => "3",
        4 => "4",
        5 => "5",
        6 => "6",
        7 => "7",
        8 => "8",
        9 => "9",
        10 => "a",
        11 => "b",
        12 => "c",
        13 => "d",
        14 => "e",
        _ => "f",
    };
    assert(text@ =~= seq![digit_of(n as int)]);
    text
}

/// Writes `bytes` as lower-case hexadecimal text without separators.
pub fn encode_hex(bytes: &[u8]) -> (text: String)
    ensures
        text@ == hex_of(bytes@),
        text@.len() == 2 * bytes@.len(),
{
    let mut text: String = String::new();
    let mut i: usize = 0;
    while i < bytes.len()
        invariant
            i <= bytes@.len(),
            text@.len() == 2 * i,
            forall|k: int| 0 <= k < 2 * i ==> text@[k] == hex_of(bytes@)[k],
        decreases bytes@.len() - i,
    {
        let b: u8 = bytes[i];
        text.append(digit_text(b / 16));
        text.append(digit_text(b % 16));
        i += 1;
    }
    assert(text@ =~= hex_of(bytes@));
    text
}

/// Each of the sixteen digits has the value that it stands for.
pub proof fn digit_has_its_value(n: int)
    requires
        0 <= n < 16,
    ensures
        value_of(digit_of(n)) == n,
{
}

/// Hexadecimal text loses nothing: it has two characters for each byte, each
/// of them a lower-case hex digit, and it stands for the bytes it was made of.
pub proof fn hex_text_round_trip(bytes: Seq<u8>)
    ensures
        hex_of(bytes).len() == 2 * bytes.len(),
        forall|k: int|
            0 <= k < hex_of(bytes).len() ==> 0 <= value_of(#[trigger] hex_of(bytes)[k]) < 16,
        bytes_of(hex_of(bytes)) == bytes,
{
    let text = hex_of(bytes);
    assert forall|k: int| 0 <= k < text.len() implies 0 <= value_of(#[trigger] text[k]) < 16 by {
        let b = bytes[k / 2] as int;
        digit_has_its_value(b / 16);
        digit_has_its_value(b % 16);
    }
    assert forall|i: int| 0 <= i < bytes.len() implies bytes_of(text)[i] == bytes[i] by {
        let b = bytes[i] as int;
        digit_has_its_value(b / 16);
        digit_has_its_value(b % 16);
    }
}

} // verus!
