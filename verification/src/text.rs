//! Text and byte helpers: joining message parts, decimal numbers, comparison of byte strings.

use vstd::prelude::*;
use vstd::utf8::{decode_utf8, encode_utf8, valid_utf8};

verus! {

/// `prefix`, `middle` and `suffix`, one after the other.
pub open spec fn joined(prefix: Seq<char>, middle: Seq<char>, suffix: Seq<char>) -> Seq<char> {
    prefix + middle + suffix
}

/// Joins three pieces of text.
pub fn join(prefix: &str, middle: &str, suffix: &str) -> (text: String)
    ensures
        text@ == joined(prefix@, middle@, suffix@),
{
    let mut text: String = prefix.to_owned();
    text.append(middle);
    text.append(suffix);
    text
}

/// `pieces` with `separator` between each two of them.
pub open spec fn separated(pieces: Seq<Seq<char>>, separator: Seq<char>) -> Seq<char>
    decreases pieces.len(),
{
    if pieces.len() == 0 {
        Seq::empty()
    } else if pieces.len() == 1 {
        pieces[0]
    } else {
        separated(pieces.drop_last(), separator) + separator + pieces.last()
    }
}

/// The decimal digit for `digit`, which is taken modulo ten.
pub open spec fn digit_text(digit: nat) -> Seq<char> {
    match (digit % 10) as u8 {
        0 => "0"@,
        1 => "1"@,
        2 => "2"@,
        3 => "3"@,
        4 => "4"@,
        5 => "5"@,
        6 => "6"@,
        7 => "7"@,
        8 => "8"@,
        _ => "9"@,
    }
}

/// `number` in decimal notation, without leading zeros.
pub open spec fn decimal_text(number: nat) -> Seq<char>
    decreases number,
{
    if number < 10 {
        digit_text(number)
    } else {
        decimal_text(number / 10) + digit_text(number)
    }
}

fn digit(value: usize) -> (text: &'static str)
    ensures
        text@ == digit_text(value as nat),
{
    match value % 10 {
        0 => "0",
        1 => "1",
        2 => "2",
        3 => "3",
        4 => "4",
        5 => "5",
        6 => "6",
        7 => "7",
        8 => "8",
        _ => "9",
    }
}

/// Writes `number` in decimal notation.
pub fn decimal(number: usize) -> (text: String)
    ensures
        text@ == decimal_text(number as nat),
    decreases number,
{
    if number < 10 {
        digit(number).to_owned()
    } else {
        let mut text: String = decimal(number / 10);
        text.append(digit(number));
        text
    }
}

/// The text that `bytes` are in UTF-8, where they are any.
pub open spec fn text_of(bytes: Seq<u8>) -> Option<Seq<char>> {
    if valid_utf8(bytes) {
        Some(decode_utf8(bytes))
    } else {
        None
    }
}

/// Text that was read from bytes is written as the same bytes.
pub proof fn law_text_is_written_as_it_was_read(bytes: Seq<u8>)
    ensures
        text_of(bytes) matches Some(text) ==> encode_utf8(text) == bytes,
{
    if valid_utf8(bytes) {
        vstd::utf8::decode_utf8_encode_utf8(bytes);
    }
}

/// What `String::from_utf8` says of bytes that are no text.
pub uninterp spec fn utf8_error_text(bytes: Seq<u8>) -> Seq<char>;

/// Calls `String::from_utf8`: the text that the bytes are in UTF-8, or, where they are none, the text
/// of its error, which depends on the bytes alone.
#[verifier::external_body]
pub(crate) fn text_from_utf8(bytes: Vec<u8>) -> (text: Result<String, String>)
    ensures
        text is Ok <==> valid_utf8(bytes@),
        text matches Ok(text) ==> text@ == decode_utf8(bytes@),
        text matches Err(message) ==> message@ == utf8_error_text(bytes@),
{
    String::from_utf8(bytes).map_err(|error| error.to_string())
}

/// The bytes of `text` in UTF-8.
pub fn text_bytes(text: &String) -> (bytes: Vec<u8>)
    ensures
        bytes@ == encode_utf8(text@),
{
    text.as_str().as_bytes_vec()
}

/// Whether two byte strings hold the same bytes.
pub fn bytes_equal(left: &Vec<u8>, right: &Vec<u8>) -> (equal: bool)
    ensures
        equal == (left@ == right@),
{
    if left.len() != right.len() {
        return false;
    }
    let mut index: usize = 0;
    while index < left.len()
        invariant
            index <= left.len(),
            left.len() == right.len(),
            forall|k: int| 0 <= k < index ==> left@[k] == right@[k],
        decreases left.len() - index,
    {
        if left[index] != right[index] {
            return false;
        }
        index = index + 1;
    }
    assert(left@ =~= right@);
    true
}

/// A byte string with the same bytes.
pub fn bytes_copy(bytes: &Vec<u8>) -> (copy: Vec<u8>)
    ensures
        copy@ == bytes@,
{
    let copy = bytes.clone();
    assert(copy@ =~= bytes@);
    copy
}

/// The number that a text of decimal digits stands for.
pub open spec fn number_of(digits: Seq<char>) -> int
    decreases digits.len(),
{
    if digits.len() == 0 {
        0
    } else {
        10 * number_of(digits.drop_last()) + (digits.last() as int - '0' as int)
    }
}

/// A number is read back from its decimal notation, which has no leading zero.
pub proof fn law_decimal_text_is_read_back(number: nat)
    ensures
        number_of(decimal_text(number)) == number,
        decimal_text(number).len() > 0,
        decimal_text(number)[0] == '0' ==> number == 0,
    decreases number,
{
    reveal_strlit("0");
    reveal_strlit("1");
    reveal_strlit("2");
    reveal_strlit("3");
    reveal_strlit("4");
    reveal_strlit("5");
    reveal_strlit("6");
    reveal_strlit("7");
    reveal_strlit("8");
    reveal_strlit("9");
    let digit = digit_text(number);
    assert(digit.len() == 1);
    assert(digit[0] as int == '0' as int + number % 10);
    let text = decimal_text(number);
    if number < 10 {
        assert(text.drop_last() =~= Seq::<char>::empty());
        assert(number_of(text.drop_last()) == 0);
    } else {
        law_decimal_text_is_read_back(number / 10);
        assert(text.drop_last() =~= decimal_text(number / 10));
        assert(text.last() == digit[0]);
        assert(text[0] == decimal_text(number / 10)[0]);
    }
}

} // verus!
