//! Base-62 text for byte strings.
//!
//! A byte string is read as one big-endian number, with a leading byte 1 that keeps its leading
//! zeros; the text is that number's base-62 numeral, least significant digit first.

use vstd::prelude::*;

verus! {

/// The digits are `0` to `9`, then `A` to `Z`, then `a` to `z`.
pub open spec fn is_digit(c: char) -> bool {
    ||| '0' as int <= c as int <= '9' as int
    ||| 'A' as int <= c as int <= 'Z' as int
    ||| 'a' as int <= c as int <= 'z' as int
}

pub open spec fn digit_value(c: char) -> nat
    recommends
        is_digit(c),
{
    if c as int <= '9' as int {
        (c as int - '0' as int) as nat
    } else if c as int <= 'Z' as int {
        (c as int - 'A' as int + 10) as nat
    } else {
        (c as int - 'a' as int + 36) as nat
    }
}

pub open spec fn digit_char(d: nat) -> char
    recommends
        d < 62,
{
    if d < 10 {
        (d + '0' as int) as char
    } else if d < 36 {
        (d - 10 + 'A' as int) as char
    } else {
        (d - 36 + 'a' as int) as char
    }
}

/// The base-62 numeral of `n`, least significant digit first; empty for zero.
pub open spec fn numeral(n: nat) -> Seq<char>
    decreases n,
{
    if n == 0 {
        Seq::empty()
    } else {
        seq![digit_char(n % 62)] + numeral(n / 62)
    }
}

/// The number that a string of digits stands for, least significant digit first.
pub open spec fn numeral_value(text: Seq<char>) -> nat
    decreases text.len(),
{
    if text.len() == 0 {
        0
    } else {
        digit_value(text[0]) + 62 * numeral_value(text.drop_first())
    }
}

/// The number that `bytes` stand for, most significant byte first.
pub open spec fn be_value(bytes: Seq<u8>) -> nat
    decreases bytes.len(),
{
    if bytes.len() == 0 {
        0
    } else {
        256 * be_value(bytes.drop_last()) + bytes.last() as nat
    }
}

/// The bytes of `n`, most significant first and without leading zeros; a single 0 for zero.
pub open spec fn be_bytes(n: nat) -> Seq<u8>
    decreases n,
{
    if n < 256 {
        seq![n as u8]
    } else {
        be_bytes(n / 256).push((n % 256) as u8)
    }
}

/// What kept a text from being base-62.
#[derive(Debug, Clone, Copy, PartialEq, Eq, Structural)]
pub enum Base62Error {
    BadCharacter { character: char },
}

/// `String::push`. Trusted: it appends the character.
pub assume_specification[ String::push ](text: &mut String, c: char)
    ensures
        final(text)@ == old(text)@.push(c),
;

impl Base62Error {
    pub open spec fn message_text(self) -> Seq<char> {
        match self {
            Base62Error::BadCharacter { character } => ("Invalid character '"@).push(character).push(
                '\'',
            ),
        }
    }

    /// What went wrong, in words.
    pub fn message(&self) -> (text: String)
        ensures
            text@ == self.message_text(),
    {
        match self {
            Base62Error::BadCharacter { character } => {
                let mut text = "Invalid character '".to_owned();
                text.push(*character);
                text.push('\'');
                text
            },
        }
    }
}

/// The first character of `text` that is no digit.
pub open spec fn first_bad(text: Seq<char>) -> Option<char>
    decreases text.len(),
{
    if text.len() == 0 {
        None
    } else if !is_digit(text[0]) {
        Some(text[0])
    } else {
        first_bad(text.drop_first())
    }
}

/// The text of `bytes`.
pub open spec fn encoded(bytes: Seq<u8>) -> Seq<char> {
    if bytes.len() == 0 {
        Seq::empty()
    } else {
        numeral(be_value(seq![1u8] + bytes))
    }
}

/// The bytes of `text`: those of its number, without the leading one.
pub open spec fn decoded(text: Seq<char>) -> Result<Seq<u8>, Base62Error> {
    match first_bad(text) {
        Some(character) => Err(Base62Error::BadCharacter { character }),
        None => Ok(be_bytes(numeral_value(text)).drop_first()),
    }
}

/// Calls `base_62::encode`. Trusted: the text is the numeral of the bytes behind a leading 1,
/// least significant digit first, and empty for no bytes.
#[verifier::external_body]
pub(crate) fn encode(bytes: &[u8]) -> (text: String)
    ensures
        text@ == encoded(bytes@),
{
    base_62::encode(bytes)
}

/// Calls `base_62::decode`. Trusted: it fails with the first character that is no digit, if
/// there is one; otherwise it returns the bytes of the text's number without the leading byte,
/// whatever that byte is.
#[verifier::external_body]
pub(crate) fn decode(text: &str) -> (bytes: Result<Vec<u8>, Base62Error>)
    ensures
        match bytes {
            Ok(bytes) => decoded(text@) == Ok::<Seq<u8>, Base62Error>(bytes@),
            Err(error) => decoded(text@) == Err::<Seq<u8>, Base62Error>(error),
        },
{
    match base_62::decode(text) {
        Ok(bytes) => Ok(bytes),
        Err(base_62::Error::BadCharacter { character }) => Err(
            Base62Error::BadCharacter { character },
        ),
    }
}

proof fn lemma_numeral(n: nat)
    ensures
        first_bad(numeral(n)) is None,
        numeral_value(numeral(n)) == n,
    decreases n,
{
    if n > 0 {
        lemma_numeral(n / 62);
        let text = numeral(n);
        assert(text.drop_first() =~= numeral(n / 62));
        assert(text[0] == digit_char(n % 62));
    }
}

proof fn lemma_be_bytes(top: u8, bytes: Seq<u8>)
    requires
        top != 0,
    ensures
        be_value(seq![top] + bytes) > 0,
        be_bytes(be_value(seq![top] + bytes)) == seq![top] + bytes,
    decreases bytes.len(),
{
    let all = seq![top] + bytes;
    if bytes.len() == 0 {
        assert(all.drop_last() =~= Seq::empty());
        assert(all =~= seq![top]);
        assert(be_value(all.drop_last()) == 0);
    } else {
        lemma_be_bytes(top, bytes.drop_last());
        assert(all.drop_last() =~= seq![top] + bytes.drop_last());
        assert(all =~= all.drop_last().push(all.last()));
    }
}

/// Every byte string can be read back from its text.
pub proof fn law_decoded_encoded(bytes: Seq<u8>)
    ensures
        decoded(encoded(bytes)) == Ok::<Seq<u8>, Base62Error>(bytes),
{
    if bytes.len() == 0 {
        assert(be_bytes(0).drop_first() =~= bytes);
    } else {
        lemma_numeral(be_value(seq![1u8] + bytes));
        lemma_be_bytes(1, bytes);
        assert((seq![1u8] + bytes).drop_first() =~= bytes);
    }
}

/// Different byte strings have different texts.
pub proof fn law_encoded_injective(a: Seq<u8>, b: Seq<u8>)
    requires
        encoded(a) == encoded(b),
    ensures
        a == b,
{
    law_decoded_encoded(a);
    law_decoded_encoded(b);
}

/// The digits in their order, each with its value.
pub proof fn law_digits(d: nat, c: char)
    requires
        d < 62,
    ensures
        digit_char(d) == "0123456789ABCDEFGHIJKLMNOPQRSTUVWXYZabcdefghijklmnopqrstuvwxyz"@[d as int],
        digit_value(digit_char(d)) == d,
        is_digit(digit_char(d)),
        is_digit(c) ==> digit_value(c) < 62 && digit_char(digit_value(c)) == c,
{
    reveal_strlit("0123456789ABCDEFGHIJKLMNOPQRSTUVWXYZabcdefghijklmnopqrstuvwxyz");
}

/// The first bad character is no digit and has only digits before it; there is none exactly if
/// all characters are digits.
pub proof fn law_first_bad(text: Seq<char>)
    ensures
        first_bad(text) is None <==> forall|i: int|
            0 <= i < text.len() ==> is_digit(#[trigger] text[i]),
        first_bad(text) matches Some(character) ==> exists|i: int|
            {
                &&& 0 <= i < text.len()
                &&& #[trigger] text[i] == character
                &&& !is_digit(character)
                &&& forall|j: int| 0 <= j < i ==> is_digit(#[trigger] text[j])
            },
    decreases text.len(),
{
    if text.len() > 0 && is_digit(text[0]) {
        let rest = text.drop_first();
        law_first_bad(rest);
        if first_bad(rest) is None {
            assert forall|i: int| 0 <= i < text.len() implies is_digit(#[trigger] text[i]) by {
                if i > 0 {
                    assert(rest[i - 1] == text[i]);
                }
            }
        } else {
            let i = choose|i: int|
                {
                    &&& 0 <= i < rest.len()
                    &&& #[trigger] rest[i] == first_bad(rest)->0
                    &&& !is_digit(first_bad(rest)->0)
                    &&& forall|j: int| 0 <= j < i ==> is_digit(#[trigger] rest[j])
                };
            assert(text[i + 1] == rest[i]);
            assert forall|j: int| 0 <= j < i + 1 implies is_digit(#[trigger] text[j]) by {
                if j > 0 {
                    assert(rest[j - 1] == text[j]);
                }
            }
        }
    }
}

/// The text of some bytes is all digits, does not end in a zero, and stands for the number that
/// the bytes are behind a leading 1.
pub proof fn law_encoded_value(bytes: Seq<u8>)
    requires
        bytes.len() > 0,
    ensures
        first_bad(encoded(bytes)) is None,
        encoded(bytes).len() > 0,
        encoded(bytes).last() != '0',
        numeral_value(encoded(bytes)) == be_value(seq![1u8] + bytes),
{
    let n = be_value(seq![1u8] + bytes);
    lemma_numeral(n);
    lemma_be_bytes(1, bytes);
    lemma_numeral_last(n);
}

proof fn lemma_numeral_last(n: nat)
    requires
        n > 0,
    ensures
        numeral(n).len() > 0,
        numeral(n).last() != '0',
    decreases n,
{
    if n >= 62 {
        lemma_numeral_last(n / 62);
        assert(numeral(n).last() == numeral(n / 62).last());
    } else {
        reveal_with_fuel(numeral, 2);
        assert(numeral(n) =~= seq![digit_char(n)]);
    }
}

/// A digit more before a numeral counts as many as it does and the rest sixty-two times as much;
/// a byte more behind bytes counts as many as it does and the rest 256 times as much.
pub proof fn law_place_values(c: char, text: Seq<char>, bytes: Seq<u8>, byte: u8)
    ensures
        numeral_value(Seq::empty()) == 0,
        numeral_value(seq![c] + text) == digit_value(c) + 62 * numeral_value(text),
        be_value(Seq::empty()) == 0,
        be_value(bytes.push(byte)) == 256 * be_value(bytes) + byte,
{
    assert((seq![c] + text).drop_first() =~= text);
    assert(bytes.push(byte).drop_last() =~= bytes);
}

/// The bytes of a number stand for it, and the first is no zero but for zero itself.
pub proof fn law_be_bytes(n: nat)
    ensures
        be_value(be_bytes(n)) == n,
        be_bytes(n).len() > 0,
        n > 0 ==> be_bytes(n)[0] != 0,
    decreases n,
{
    if n < 256 {
        assert(be_bytes(n).drop_last() =~= Seq::empty());
        assert(be_value(be_bytes(n).drop_last()) == 0);
    } else {
        law_be_bytes(n / 256);
        assert(be_bytes(n).drop_last() =~= be_bytes(n / 256));
    }
}

/// The words for a character that is no digit.
pub proof fn law_error_words(character: char)
    ensures
        (Base62Error::BadCharacter { character }).message_text() == "Invalid character '"@ + seq![
            character,
            '\'',
        ],
{
}

} // verus!
