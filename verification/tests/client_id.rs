use p2p_test::base62::Base62Error;
use p2p_test::{ClientId, ClientIdFromStringError};

fn counting() -> ClientId {
    let mut bytes = [0u8; 32];
    for i in 0..32 {
        bytes[i] = i as u8;
    }
    ClientId(bytes)
}

fn text_of(id: ClientId) -> String {
    id.into()
}

#[test]
fn text_is_the_base_62_numeral() {
    assert_eq!(text_of(ClientId([0; 32])), "2pX8wOr5j2ACunjH7GLL8mWZWHmY1LA1ZO6Adwksjhy");
    assert_eq!(text_of(counting()), "halQ7982MUUdFxzoJwvaUp0xQKVzUXvkSWIT6iFTnhy");
    assert_eq!(text_of(ClientId([255; 32])), "3e5HsniBS5KOobTZEWggGY393ZY73gK28nCKGtVlTPx1");
}

#[test]
fn debug_shows_the_text() {
    let id = counting();
    let text = text_of(id);
    assert_eq!(format!("{:?}", id), text);
    assert_eq!(format!("{:46?}|", id), format!("{}   |", text));
    assert_eq!(
        format!("{:?}", p2p_test::ClientEvent::Hello { id }),
        format!("Hello {{ id: {} }}", text)
    );
}

#[test]
fn text_is_read_back() {
    for id in [ClientId([0; 32]), counting(), ClientId([255; 32]), ClientId::rand()] {
        assert_eq!(ClientId::try_from(text_of(id).as_str()), Ok(id));
    }
}

#[test]
fn leading_byte_of_the_number_does_not_matter() {
    let other = "pswyrkZPGf8QsAxxmyIy1w7FXScEbtapi6i7dUH0lWt4";
    assert_eq!(ClientId::try_from(other), Ok(counting()));
    assert_ne!(text_of(counting()), other);
}

#[test]
fn zeros_at_the_end_of_the_text_do_not_matter() {
    let mut text = text_of(counting());
    text.push_str("00");
    assert_eq!(ClientId::try_from(text.as_str()), Ok(counting()));
}

#[test]
fn wrong_size_is_refused() {
    for text in [
        "",
        "0",
        "JsoUl8",
        "8AzlTg8Z3jeRlafZyuCwX4uM025uAxuPM7SfzMuWhE",
        "GieH3yUCCGTD248F5Ym7SkKhUMMbRogoaQPih5q5Sbe24",
    ] {
        assert_eq!(ClientId::try_from(text), Err(ClientIdFromStringError::WrongSize));
    }
}

#[test]
fn first_bad_character_is_named() {
    assert_eq!(
        ClientId::try_from("abc-d/"),
        Err(ClientIdFromStringError::Decode(Base62Error::BadCharacter { character: '-' }))
    );
    assert_eq!(
        ClientId::try_from("\u{e9}"),
        Err(ClientIdFromStringError::Decode(Base62Error::BadCharacter { character: '\u{e9}' }))
    );
}

#[test]
fn errors_say_what_went_wrong() {
    assert_eq!(ClientIdFromStringError::WrongSize.message(), "wrong size of client id");
    assert_eq!(
        ClientIdFromStringError::Decode(Base62Error::BadCharacter { character: '+' }).message(),
        "while decoding from base62: Invalid character '+'"
    );
}

#[test]
fn bytes_are_taken_as_they_are() {
    let id = counting();
    assert_eq!(ClientId::from_bytes(&id.0), Ok(id));
    assert_eq!(ClientId::from_bytes(&id.0[1..]), Err(ClientIdFromStringError::WrongSize));
    assert_eq!(ClientId::from_bytes(&[]), Err(ClientIdFromStringError::WrongSize));
}

#[test]
fn equal_exactly_if_all_bytes_are() {
    let id = counting();
    let mut first = id;
    first.0[0] = 9;
    let mut last = id;
    last.0[31] = 9;
    assert!(id == counting());
    assert!(id != first);
    assert!(id != last);
}

#[test]
fn random_ids_differ() {
    assert_ne!(ClientId::rand(), ClientId::rand());
    assert_ne!(ClientId::rand(), ClientId([0; 32]));
}

#[test]
fn fallback_is_used_only_where_the_text_spells_no_id() {
    let id = counting();
    let fallback = ClientId([7; 32]);
    let text = text_of(id);
    assert_eq!(ClientId::parse_or(Some(text.as_str()), fallback), id);
    assert_eq!(ClientId::parse_or(Some("short"), fallback), fallback);
    assert_eq!(ClientId::parse_or(Some("?"), fallback), fallback);
    assert_eq!(ClientId::parse_or(None, fallback), fallback);
    assert_eq!(ClientId::parse_or_rand(Some(text.as_str())), id);
    assert_ne!(ClientId::parse_or_rand(Some("short")), ClientId::parse_or_rand(Some("short")));
    assert_ne!(ClientId::parse_or_rand(None), ClientId::parse_or_rand(None));
}
