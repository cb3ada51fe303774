//! The identity of a client: 32 bytes, written as base-62 text.

use vstd::prelude::*;

use crate::base62::Base62Error;
use crate::show::display;

verus! {

#[derive(Clone, Copy, Eq, Hash)]
pub struct ClientId(pub [u8; 32]);

#[derive(Debug, Clone, Copy, PartialEq, Eq, Structural)]
pub enum ClientIdFromStringError {
    /// The text is not base-62.
    Decode(Base62Error),
    /// The text stands for some other number of bytes than 32.
    WrongSize,
}

impl ClientIdFromStringError {
    pub open spec fn message_text(self) -> Seq<char> {
        match self {
            ClientIdFromStringError::Decode(error) => "while decoding from base62: "@
                + error.message_text(),
            ClientIdFromStringError::WrongSize => "wrong size of client id"@,
        }
    }

    /// What went wrong, in words.
    pub fn message(&self) -> (text: String)
        ensures
            text@ == self.message_text(),
    {
        match self {
            ClientIdFromStringError::Decode(error) => {
                let cause = error.message();
                "while decoding from base62: ".to_owned().concat(cause.as_str())
            },
            ClientIdFromStringError::WrongSize => "wrong size of client id".to_owned(),
        }
    }
}

impl PartialEq for ClientId {
    fn eq(&self, other: &ClientId) -> (equal: bool) {
        let mut i: usize = 0;
        while i < 32
            invariant
                i <= 32,
                forall|j: int| 0 <= j < i ==> self.0@[j] == other.0@[j],
            decreases 32 - i,
        {
            if self.0[i] != other.0[i] {
                return false;
            }
            i += 1;
        }
        assert(self.0 =~= other.0);
        true
    }
}

impl vstd::std_specs::cmp::PartialEqSpecImpl for ClientId {
    open spec fn obeys_eq_spec() -> bool {
        true
    }

    open spec fn eq_spec(&self, other: &ClientId) -> bool {
        *self == *other
    }
}

impl std::fmt::Debug for ClientId {
    /// Writes the text of the id, and nothing else.
    fn fmt(&self, f: &mut std::fmt::Formatter<'_>) -> (shown: std::fmt::Result)
        ensures
            exists|text: &str, g: &mut std::fmt::Formatter<'_>|
                {
                    &&& text@ == self.text()
                    &&& *g == *old(f)
                    &&& *final(g) == *final(f)
                    &&& #[trigger] call_ensures(display, (text, g), shown)
                },
    {
        let text: String = (*self).into();
        display(text.as_str(), f)
    }
}

/// Calls `rand::thread_rng` and has it fill 32 bytes through `rand::RngCore::fill_bytes`.
/// Nothing is promised of the bytes: any 32 of them may come. Where the system has no randomness
/// to give, the call panics.
#[verifier::external_body]
fn random_bytes() -> [u8; 32] {
    let mut buf = [0u8; 32];
    rand::RngCore::fill_bytes(&mut rand::thread_rng(), &mut buf);
    buf
}

impl ClientId {
    /// The text of this id.
    pub open spec fn text(self) -> Seq<char> {
        crate::base62::encoded(self.0@)
    }

    /// The id that `bytes` hold, if they have the right number.
    pub open spec fn of_bytes(bytes: Seq<u8>) -> Result<ClientId, ClientIdFromStringError> {
        if bytes.len() == 32 {
            Ok(choose|id: ClientId| id.0@ == bytes)
        } else {
            Err(ClientIdFromStringError::WrongSize)
        }
    }

    /// What reading `text` as an id gives.
    pub open spec fn of_text(text: Seq<char>) -> Result<ClientId, ClientIdFromStringError> {
        match crate::base62::decoded(text) {
            Ok(bytes) => ClientId::of_bytes(bytes),
            Err(error) => Err(ClientIdFromStringError::Decode(error)),
        }
    }

    /// Every id is the one that its bytes hold.
    proof fn lemma_of_bytes(self)
        ensures
            ClientId::of_bytes(self.0@) == Ok::<ClientId, ClientIdFromStringError>(self),
    {
        let id = choose|id: ClientId| id.0@ == self.0@;
        assert(id.0 =~= self.0) by {
            assert forall|i: int| 0 <= i < 32 implies id.0[i] == self.0[i] by {
                assert(id.0@[i] == self.0@[i]);
            }
        }
    }

    /// The random generator may give these bytes.
    pub closed spec fn is_drawn(bytes: [u8; 32]) -> bool {
        call_ensures(random_bytes, (), bytes)
    }

    /// An id of 32 random bytes: those that the generator gave, and no others.
    pub fn rand() -> (id: ClientId)
        ensures
            ClientId::is_drawn(id.0),
    {
        ClientId(random_bytes())
    }

    /// The id that `bytes` hold: exactly 32 are needed.
    pub fn from_bytes(bytes: &[u8]) -> (id: Result<ClientId, ClientIdFromStringError>)
        ensures
            id == ClientId::of_bytes(bytes@),
            bytes@.len() == 32 ==> (id matches Ok(id) && id.0@ == bytes@),
    {
        if bytes.len() != 32 {
            return Err(ClientIdFromStringError::WrongSize);
        }
        let mut buf: [u8; 32] = [0u8; 32];
        let mut i: usize = 0;
        while i < 32
            invariant
                i <= 32,
                bytes@.len() == 32,
                forall|j: int| 0 <= j < i ==> buf@[j] == bytes@[j],
            decreases 32 - i,
        {
            buf[i] = bytes[i];
            i += 1;
        }
        let id = ClientId(buf);
        proof {
            assert(id.0@ =~= bytes@);
            id.lemma_of_bytes();
        }
        Ok(id)
    }

    /// The id that `text` spells, if there is a text and it spells one.
    pub open spec fn spelt(text: Option<Seq<char>>) -> Option<ClientId> {
        match text {
            Some(text) => match ClientId::of_text(text) {
                Ok(id) => Some(id),
                Err(_) => None,
            },
            None => None,
        }
    }

    /// The id that `text` spells, or `fallback` where there is no text or it spells none.
    pub open spec fn of_text_or(text: Option<Seq<char>>, fallback: ClientId) -> ClientId {
        match ClientId::spelt(text) {
            Some(id) => id,
            None => fallback,
        }
    }

    /// The id that `text` spells, or `fallback` where there is no text or it spells none.
    pub fn parse_or(text: Option<&str>, fallback: ClientId) -> (id: ClientId)
        ensures
            id == ClientId::of_text_or(optional_chars(text), fallback),
    {
        match text {
            Some(text) => match ClientId::try_from(text) {
                Ok(id) => id,
                Err(_) => fallback,
            },
            None => fallback,
        }
    }

    /// The id that `text` spells, or a random one where there is no text or it spells none.
    pub fn parse_or_rand(text: Option<&str>) -> (id: ClientId)
        ensures
            match ClientId::spelt(optional_chars(text)) {
                Some(spelt) => id == spelt,
                None => ClientId::is_drawn(id.0),
            },
    {
        if let Some(text) = text {
            if let Ok(id) = ClientId::try_from(text) {
                return id;
            }
        }
        ClientId::rand()
    }
}

/// The characters of an optional text.
pub open spec fn optional_chars(text: Option<&str>) -> Option<Seq<char>> {
    match text {
        Some(text) => Some(text@),
        None => None,
    }
}

/// `id`, where it is one, holds the bytes that `text` stands for.
pub open spec fn holds_bytes_of(
    id: Result<ClientId, ClientIdFromStringError>,
    text: Seq<char>,
) -> bool {
    id matches Ok(id) ==> crate::base62::decoded(text) == Ok::<Seq<u8>, Base62Error>(id.0@)
}

impl TryFrom<&str> for ClientId {
    type Error = ClientIdFromStringError;

    /// The id that `client_id` spells.
    fn try_from(client_id: &str) -> (id: Result<ClientId, ClientIdFromStringError>)
        ensures
            holds_bytes_of(id, client_id@),
    {
        match crate::base62::decode(client_id) {
            Ok(bytes) => ClientId::from_bytes(bytes.as_slice()),
            Err(error) => Err(ClientIdFromStringError::Decode(error)),
        }
    }
}

impl vstd::std_specs::convert::TryFromSpecImpl<&str> for ClientId {
    open spec fn obeys_try_from_spec() -> bool {
        true
    }

    open spec fn try_from_spec(client_id: &str) -> Result<ClientId, ClientIdFromStringError> {
        ClientId::of_text(client_id@)
    }
}

/// The characters of `text`.
pub open spec fn chars_of(text: String) -> Seq<char> {
    text@
}

impl Into<String> for ClientId {
    fn into(self) -> (text: String)
        ensures
            chars_of(text) == self.text(),
    {
        crate::base62::encode(vstd::array::array_as_slice(&self.0))
    }
}

impl vstd::std_specs::convert::IntoSpecImpl<String> for ClientId {
    /// Two strings of the same characters need not be the same value; what `into` returns is
    /// said of its characters instead.
    open spec fn obeys_into_spec() -> bool {
        false
    }

    open spec fn into_spec(self) -> String {
        choose|text: String| chars_of(text) == self.text()
    }
}

/// Reading an id from its own text gives the id back.
pub proof fn law_text_round_trip(id: ClientId)
    ensures
        ClientId::of_text(id.text()) == Ok::<ClientId, ClientIdFromStringError>(id),
{
    crate::base62::law_decoded_encoded(id.0@);
    id.lemma_of_bytes();
}

/// Two ids with the same text are the same id.
pub proof fn law_text_injective(a: ClientId, b: ClientId)
    requires
        a.text() == b.text(),
    ensures
        a == b,
{
    law_text_round_trip(a);
    law_text_round_trip(b);
}

/// Reading a text fails with the first character that is no base-62 digit, where there is one,
/// and otherwise succeeds if and only if the text stands for 32 bytes.
pub proof fn law_of_text_outcome(text: Seq<char>)
    ensures
        match crate::base62::first_bad(text) {
            Some(character) => ClientId::of_text(text) == Err::<ClientId, ClientIdFromStringError>(
                ClientIdFromStringError::Decode(Base62Error::BadCharacter { character }),
            ),
            None => {
                let bytes = crate::base62::be_bytes(
                    crate::base62::numeral_value(text),
                ).drop_first();
                &&& bytes.len() == 32 <==> ClientId::of_text(text) is Ok
                &&& bytes.len() != 32 <==> ClientId::of_text(text) == Err::<
                    ClientId,
                    ClientIdFromStringError,
                >(ClientIdFromStringError::WrongSize)
            },
        },
{
}

/// A text spells an id exactly if it reads as that id, and no text spells none.
pub proof fn law_spelt(text: Seq<char>, id: ClientId)
    ensures
        ClientId::spelt(Some(text)) == Some(id) <==> ClientId::of_text(text) == Ok::<
            ClientId,
            ClientIdFromStringError,
        >(id),
        ClientId::spelt(Some(text)) is None <==> ClientId::of_text(text) is Err,
        ClientId::spelt(None) is None,
{
}

/// Reading a text as an id succeeds with an id exactly if the text stands for the bytes of that
/// id; it fails with the first character that is no digit, where there is one, and otherwise
/// exactly if the text stands for more or fewer bytes than 32.
pub proof fn law_try_from(
    text: &str,
    id: ClientId,
    character: char,
    outcome: Result<ClientId, ClientIdFromStringError>,
)
    requires
        call_ensures(ClientId::try_from, (text,), outcome),
    ensures
        outcome == Ok::<ClientId, ClientIdFromStringError>(id) <==> crate::base62::decoded(text@)
            == Ok::<Seq<u8>, Base62Error>(id.0@),
        outcome == Err::<ClientId, ClientIdFromStringError>(
            ClientIdFromStringError::Decode(Base62Error::BadCharacter { character }),
        ) <==> crate::base62::first_bad(text@) == Some(character),
        outcome == Err::<ClientId, ClientIdFromStringError>(ClientIdFromStringError::WrongSize)
            <==> (crate::base62::decoded(text@) matches Ok(bytes) && bytes.len() != 32),
        text@ == id.text() ==> outcome == Ok::<ClientId, ClientIdFromStringError>(id),
{
    id.lemma_of_bytes();
    law_text_round_trip(id);
}

/// Bytes hold an id exactly if they are its bytes, and none exactly if they are not 32.
pub proof fn law_from_bytes(
    bytes: &[u8],
    id: ClientId,
    outcome: Result<ClientId, ClientIdFromStringError>,
)
    requires
        call_ensures(ClientId::from_bytes, (bytes,), outcome),
    ensures
        outcome == Ok::<ClientId, ClientIdFromStringError>(id) <==> bytes@ == id.0@,
        outcome == Err::<ClientId, ClientIdFromStringError>(ClientIdFromStringError::WrongSize)
            <==> bytes@.len() != 32,
        outcome is Ok <==> bytes@.len() == 32,
{
    id.lemma_of_bytes();
}

/// An id is written as the text that stands for its bytes, so what is written reads as the id.
pub proof fn law_into(id: ClientId, text: String)
    requires
        call_ensures(<ClientId as Into<String>>::into, (id,), text),
    ensures
        text@ == crate::base62::encoded(id.0@),
        ClientId::of_text(text@) == Ok::<ClientId, ClientIdFromStringError>(id),
{
    law_text_round_trip(id);
}

/// The id that a text spells is the one that is taken, whatever would stand in for it, and what
/// stands in is taken where the text spells none; so the text of an id is always taken for that
/// id.
pub proof fn law_parse_or(
    text: &str,
    id: ClientId,
    fallback: ClientId,
    parsed: ClientId,
    without_text: ClientId,
)
    requires
        call_ensures(ClientId::parse_or, (Some(text), fallback), parsed),
        call_ensures(ClientId::parse_or, (None, fallback), without_text),
    ensures
        without_text == fallback,
        text@ == id.text() ==> parsed == id,
        match crate::base62::decoded(text@) {
            Ok(bytes) => {
                &&& bytes == id.0@ ==> parsed == id
                &&& bytes.len() != 32 ==> parsed == fallback
            },
            Err(_) => parsed == fallback,
        },
{
    id.lemma_of_bytes();
    law_text_round_trip(id);
}

/// The id that a text spells is the one that is taken, and a random one where the text spells
/// none; so the text of an id is always taken for that id.
pub proof fn law_parse_or_rand(text: &str, id: ClientId, parsed: ClientId, without_text: ClientId)
    requires
        call_ensures(ClientId::parse_or_rand, (Some(text),), parsed),
        call_ensures(ClientId::parse_or_rand, (None,), without_text),
    ensures
        ClientId::is_drawn(without_text.0),
        text@ == id.text() ==> parsed == id,
        match crate::base62::decoded(text@) {
            Ok(bytes) => {
                &&& bytes == id.0@ ==> parsed == id
                &&& bytes.len() != 32 ==> ClientId::is_drawn(parsed.0)
            },
            Err(_) => ClientId::is_drawn(parsed.0),
        },
{
    id.lemma_of_bytes();
    law_text_round_trip(id);
}

/// The id that is taken is the one that the text spells, where it spells one, and what stands in
/// for it otherwise.
pub proof fn law_of_text_or(text: Option<Seq<char>>, id: ClientId, fallback: ClientId)
    ensures
        ClientId::spelt(text) == Some(id) ==> ClientId::of_text_or(text, fallback) == id,
        ClientId::spelt(text) is None ==> ClientId::of_text_or(text, fallback) == fallback,
        ClientId::spelt(Some(id.text())) == Some(id),
        ClientId::of_text_or(Some(id.text()), fallback) == id,
        ClientId::of_text_or(None, fallback) == fallback,
{
    law_text_round_trip(id);
}

/// What is drawn comes from the random generator.
proof fn law_drawn(bytes: [u8; 32])
    ensures
        ClientId::is_drawn(bytes) <==> call_ensures(random_bytes, (), bytes),
{
}

/// The words for what can be wrong with a text.
pub proof fn law_error_words(character: char)
    ensures
        ClientIdFromStringError::WrongSize.message_text() == "wrong size of client id"@,
        ClientIdFromStringError::Decode(Base62Error::BadCharacter { character }).message_text()
            == "while decoding from base62: Invalid character '"@ + seq![character, '\''],
{
    reveal_strlit("while decoding from base62: Invalid character '");
    reveal_strlit("while decoding from base62: ");
    reveal_strlit("Invalid character '");
}

} // verus!
