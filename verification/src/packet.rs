//! From a received datagram to a message.

use vstd::prelude::*;

use crate::addr::SocketAddr;

verus! {

/// The room for one datagram; a longer one is cut off by the socket.
pub const PACKET_SIZE: usize = 1024;

/// The I/O error of the standard library, which is only carried through.
#[verifier::external_type_specification]
#[verifier::external_body]
pub struct ExIoError(std::io::Error);

#[derive(Debug)]
pub enum RecvMessageError {
    /// The socket failed.
    Io(std::io::Error),
    /// The datagram is no valid message; the text says why.
    Check(String),
}

impl RecvMessageError {
    /// `text` says what went wrong, in words.
    pub open spec fn is_message(self, text: Seq<char>) -> bool {
        match self {
            RecvMessageError::Io(error) => exists|cause: String|
                #[trigger] vstd::string::to_string_from_display_ensures(&error, cause) && text
                    == "while reading data from socket: "@ + cause@,
            RecvMessageError::Check(cause) => text == "while deserialize packet: "@ + cause@,
        }
    }

    /// What went wrong, in words.
    pub fn message(&self) -> (text: String)
        ensures
            self.is_message(text@),
    {
        match self {
            RecvMessageError::Io(error) => {
                let cause = error.to_string();
                "while reading data from socket: ".to_owned().concat(cause.as_str())
            },
            RecvMessageError::Check(cause) => "while deserialize packet: ".to_owned().concat(
                cause.as_str(),
            ),
        }
    }
}

/// What `recv_message_from` returns once `parse` has judged a datagram from `addr`.
pub open spec fn parsed<T>(value: Result<T, String>, addr: SocketAddr) -> Result<
    Option<(T, SocketAddr)>,
    RecvMessageError,
> {
    match value {
        Ok(value) => Ok(Some((value, addr))),
        Err(text) => Err(RecvMessageError::Check(text)),
    }
}

/// `message` may come of what the socket returned: the socket's error, nothing for an empty
/// datagram, and otherwise what `parse` makes of the datagram, which is the first `len` bytes of
/// `buf`.
pub open spec fn may_receive<T, F: FnOnce(&[u8]) -> Result<T, String>>(
    received: Result<(usize, SocketAddr), std::io::Error>,
    buf: Seq<u8>,
    parse: F,
    message: Result<Option<(T, SocketAddr)>, RecvMessageError>,
) -> bool {
    match received {
        Err(error) => message == Err::<Option<(T, SocketAddr)>, RecvMessageError>(
            RecvMessageError::Io(error),
        ),
        Ok((len, addr)) => if len == 0 {
            message == Ok::<Option<(T, SocketAddr)>, RecvMessageError>(None)
        } else {
            exists|packet: &[u8], value: Result<T, String>|
                {
                    &&& packet@ == buf.take(len as int)
                    &&& #[trigger] parse.ensures((packet,), value)
                    &&& message == parsed(value, addr)
                }
        },
    }
}

/// `parse` makes the same of the same bytes.
pub open spec fn parses_by_bytes<T, F: FnOnce(&[u8]) -> Result<T, String>>(parse: F) -> bool {
    forall|a: &[u8], b: &[u8], of_a: Result<T, String>, of_b: Result<T, String>|
        #![trigger parse.ensures((a,), of_a), parse.ensures((b,), of_b)]
        a@ == b@ && parse.ensures((a,), of_a) && parse.ensures((b,), of_b) ==> of_a == of_b
}

/// Only the bytes just received count: the same datagram from the same sender gives the same
/// result, whatever else the two buffers hold behind it.
pub proof fn law_rest_of_buffer_has_no_influence<T, F: FnOnce(&[u8]) -> Result<T, String>>(
    received: Result<(usize, SocketAddr), std::io::Error>,
    buf_a: Seq<u8>,
    buf_b: Seq<u8>,
    parse: F,
    message_a: Result<Option<(T, SocketAddr)>, RecvMessageError>,
    message_b: Result<Option<(T, SocketAddr)>, RecvMessageError>,
)
    requires
        parses_by_bytes::<T, F>(parse),
        received matches Ok((len, _)) ==> {
            &&& len <= buf_a.len()
            &&& len <= buf_b.len()
            &&& buf_a.take(len as int) == buf_b.take(len as int)
        },
        may_receive(received, buf_a, parse, message_a),
        may_receive(received, buf_b, parse, message_b),
    ensures
        message_a == message_b,
{
}

/// Receiving undoes sending: where `parse` reads the value back from its encoding, which is not
/// empty, a datagram that is that encoding is received as that value, from its sender.
pub proof fn law_receiving_undoes_sending<T, F: FnOnce(&[u8]) -> Result<T, String>>(
    value: T,
    encoding: Seq<u8>,
    len: usize,
    addr: SocketAddr,
    buf: Seq<u8>,
    parse: F,
    message: Result<Option<(T, SocketAddr)>, RecvMessageError>,
)
    requires
        forall|packet: &[u8], read: Result<T, String>|
            packet@ == encoding && #[trigger] parse.ensures((packet,), read) ==> read == Ok::<
                T,
                String,
            >(value),
        0 < len == encoding.len() <= buf.len(),
        buf.take(len as int) == encoding,
        may_receive(Ok((len, addr)), buf, parse, message),
    ensures
        message == Ok::<Option<(T, SocketAddr)>, RecvMessageError>(Some((value, addr))),
{
}

/// The message in a datagram.
///
/// `received` is what the socket returned: the datagram's length in `buf` and its sender. `parse`
/// reads a message from bytes. An empty datagram holds no message.
pub fn recv_message_from<T, F: FnOnce(&[u8]) -> Result<T, String>>(
    received: Result<(usize, SocketAddr), std::io::Error>,
    buf: &[u8],
    parse: F,
) -> (message: Result<Option<(T, SocketAddr)>, RecvMessageError>)
    requires
        received matches Ok((len, _)) ==> len <= buf@.len(),
        received matches Ok((len, _)) ==> forall|packet: &[u8]|
            0 < len && packet@ == buf@.take(len as int) ==> #[trigger] parse.requires((packet,)),
    ensures
        may_receive(received, buf@, parse, message),
{
    let (len, addr): (usize, SocketAddr) = match received {
        Ok(received) => received,
        Err(error) => return Err(RecvMessageError::Io(error)),
    };
    if len == 0 {
        return Ok(None);
    }
    let packet = vstd::slice::slice_subrange(buf, 0, len);
    match parse(packet) {
        Ok(value) => Ok(Some((value, addr))),
        Err(text) => Err(RecvMessageError::Check(text)),
    }
}

/// The next item of a stream of messages: `None` where there was no message and the stream has to
/// receive again.
pub fn recv_item<T>(
    received: Result<Option<(T, SocketAddr)>, RecvMessageError>,
) -> (item: Option<Result<(T, SocketAddr), RecvMessageError>>)
    ensures
        item == (match received {
            Ok(None) => None,
            Ok(Some(message)) => Some(Ok(message)),
            Err(error) => Some(Err(error)),
        }),
{
    match received {
        Ok(None) => None,
        Ok(Some(message)) => Some(Ok(message)),
        Err(error) => Some(Err(error)),
    }
}

/// The socket's error is received as it is, and an empty datagram as no message, whatever `parse`
/// would make of it.
pub proof fn law_nothing_received<T, F: FnOnce(&[u8]) -> Result<T, String>>(
    error: std::io::Error,
    sender: SocketAddr,
    buf: &[u8],
    parse: F,
    failed: Result<Option<(T, SocketAddr)>, RecvMessageError>,
    empty: Result<Option<(T, SocketAddr)>, RecvMessageError>,
)
    requires
        call_ensures(recv_message_from::<T, F>, (Err(error), buf, parse), failed),
        call_ensures(recv_message_from::<T, F>, (Ok((0, sender)), buf, parse), empty),
    ensures
        failed == Err::<Option<(T, SocketAddr)>, RecvMessageError>(RecvMessageError::Io(error)),
        empty == Ok::<Option<(T, SocketAddr)>, RecvMessageError>(None),
{
}

/// What is received of a datagram is what `parse` makes of exactly the bytes just received: the
/// value that it reads, from the datagram's sender, or else its text of what is wrong.
pub proof fn law_received<T, F: FnOnce(&[u8]) -> Result<T, String>>(
    len: usize,
    sender: SocketAddr,
    buf: &[u8],
    parse: F,
    message: Result<Option<(T, SocketAddr)>, RecvMessageError>,
)
    requires
        0 < len <= buf@.len(),
        call_ensures(recv_message_from::<T, F>, (Ok((len, sender)), buf, parse), message),
    ensures
        exists|packet: &[u8], value: Result<T, String>|
            {
                &&& packet@ == buf@.take(len as int)
                &&& #[trigger] parse.ensures((packet,), value)
                &&& match value {
                    Ok(value) => message == Ok::<Option<(T, SocketAddr)>, RecvMessageError>(
                        Some((value, sender)),
                    ),
                    Err(text) => message == Err::<Option<(T, SocketAddr)>, RecvMessageError>(
                        RecvMessageError::Check(text),
                    ),
                }
            },
{
}

/// A stream hands over every message and every error as it is, and passes over nothing but empty
/// datagrams.
pub proof fn law_stream<T>(
    received: Result<Option<(T, SocketAddr)>, RecvMessageError>,
    item: Option<Result<(T, SocketAddr), RecvMessageError>>,
    message: T,
    addr: SocketAddr,
    error: RecvMessageError,
)
    requires
        call_ensures(recv_item::<T>, (received,), item),
    ensures
        item is None <==> (received matches Ok(None)),
        item == Some(Ok::<(T, SocketAddr), RecvMessageError>((message, addr))) <==> received
            == Ok::<Option<(T, SocketAddr)>, RecvMessageError>(Some((message, addr))),
        item == Some(Err::<(T, SocketAddr), RecvMessageError>(error)) <==> received == Err::<
            Option<(T, SocketAddr)>,
            RecvMessageError,
        >(error),
{
}

/// The words for what can go wrong: what was attempted, and then the cause in its own words.
pub proof fn law_error_words(error: RecvMessageError, text: Seq<char>)
    ensures
        error.is_message(text) <==> match error {
            RecvMessageError::Io(error) => exists|cause: String|
                #[trigger] vstd::string::to_string_from_display_ensures(&error, cause) && text
                    == "while reading data from socket: "@ + cause@,
            RecvMessageError::Check(cause) => text == "while deserialize packet: "@ + cause@,
        },
{
}

} // verus!
