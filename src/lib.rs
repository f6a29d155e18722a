//! A message-relay server core: wire framing, typed payload dispatch,
//! connection lifecycle decisions and the client registry / router.

pub mod codec;
pub mod json;
pub mod message;
pub mod payload;
pub mod reader;
pub mod registry;
pub mod router;
pub mod session;

pub use codec::Codec;
pub use message::{
    ClientMessage, Content, Handshake, HandshakeReply, MessageReply, Ping, Pong, ServerMessage,
};
pub use payload::{Error, RawPayload, ReceivableJSONPayload, SendableJSONPayload};
pub use registry::Registry;
pub use reader::{Either, MatchOutcome, Reader};
pub use session::Lifecycle;
pub use router::{handle_item, Delivery, Item, Outgoing};
