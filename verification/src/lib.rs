//! Rendezvous for peers: clients register with a server over UDP, the server tells those that are
//! alive of each other's addresses, and they ping each other there.
//!
//! The library holds the decisions: the identity of a client, the messages, the server's table of
//! clients, and what the server and a client do with each packet. Sockets, timers and the
//! encoding of messages are around it.

pub mod addr;
pub mod base62;
pub mod client_id;
pub mod clock;
pub mod laws;
pub mod log_result;
pub mod message;
pub mod outcomes;
pub mod packet;
pub mod peer;
pub mod pool;
pub mod server;
mod show;
pub mod sock_table;

pub use crate::addr::SocketAddr;
pub use crate::client_id::ClientId;
pub use crate::client_id::ClientIdFromStringError;
pub use crate::log_result::LogResult;
pub use crate::message::ClientEvent;
pub use crate::message::Message;
pub use crate::message::MessageClient2Client;
pub use crate::message::MessageClient2Server;
pub use crate::message::MessageServer2Client;
pub use crate::message::ServerEvent;
pub use crate::message::Uuid;
pub use crate::packet::recv_message_from;
pub use crate::packet::RecvMessageError;
