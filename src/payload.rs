//! Raw frames, the errors of the frame layer, and the type codes that tie
//! each structured message kind to a frame.
//!
//! | tag  | sent by a client | sent by the server |
//! |------|------------------|--------------------|
//! | 0x00 | Handshake        | HandshakeReply     |
//! | 0x01 | ClientMessage    | ServerMessage      |
//! | 0x02 | -                | MessageReply       |
//! | 0xFF | Ping             | Pong               |
//!
//! Tags 0x03 to 0xFE are reserved.

use vstd::prelude::*;
use vstd::string::*;

use crate::message::{
    ClientMessage, Handshake, HandshakeReply, MessageReply, Ping, Pong, ServerMessage,
};

verus! {

/// One frame: a type code and its payload bytes.
pub struct RawPayload {
    pub type_code: u8,
    pub content: Vec<u8>,
}

impl View for RawPayload {
    type V = (u8, Seq<u8>);

    open spec fn view(&self) -> (u8, Seq<u8>) {
        (self.type_code, self.content@)
    }
}

impl RawPayload {
    pub fn new(type_code: u8, content: Vec<u8>) -> (r: Self)
        ensures
            r.type_code == type_code,
            r.content@ == content@,
    {
        RawPayload { type_code, content }
    }

    /// Pairs the encoded bytes of `payload` with the type code of its kind.
    pub fn from_payload<P: SendableJSONPayload>(payload: &P, content: Vec<u8>) -> (r: Self)
        ensures
            r.type_code == P::spec_type_code(),
            r.content@ == content@,
    {
        RawPayload { type_code: payload.type_code(), content }
    }

    /// Whether this frame carries a payload of kind `P`; `Err` names the
    /// frame's code when it does not.
    pub fn check_type<P: ReceivableJSONPayload>(&self) -> (r: Result<(), Error>)
        ensures
            r is Ok <==> self.type_code == P::spec_type_code(),
            r is Err ==> r == Err::<(), Error>(Error::TypeMismatch(self.type_code)),
    {
        if P::type_code() == self.type_code {
            Ok(())
        } else {
            Err(Error::TypeMismatch(self.type_code))
        }
    }
}

/// A failure of the frame layer.
pub enum Error {
    /// The stream failed; the text describes how.
    Io(String),
    /// A frame of another kind than the one asked for, with its code.
    TypeMismatch(u8),
    /// A payload that does not decode; the text describes why.
    Coding(String),
}

/// The decimal digits of `n`.
pub open spec fn decimal(n: u8) -> Seq<char>
    decreases n,
{
    if n < 10 {
        seq![digit_char(n)]
    } else {
        decimal(n / 10) + seq![digit_char(n % 10)]
    }
}

pub open spec fn digit_char(d: u8) -> char {
    ((d + 48) as u8) as char
}

impl Error {
    /// The text shown to a peer for this error.
    pub open spec fn spec_describe(&self) -> Seq<char> {
        match self {
            Error::Io(e) => "IO error: "@ + e@,
            Error::TypeMismatch(code) => "Type mismatch: "@ + decimal(*code),
            Error::Coding(e) => "Coding error: "@ + e@,
        }
    }

    pub fn describe(&self) -> (r: String)
        ensures
            r@ == self.spec_describe(),
    {
        match self {
            Error::Io(e) => String::from_str("IO error: ").concat(e.as_str()),
            Error::TypeMismatch(code) => String::from_str("Type mismatch: ").concat(decimal_string(*code).as_str()),
            Error::Coding(e) => String::from_str("Coding error: ").concat(e.as_str()),
        }
    }
}

fn digit_str(d: u8) -> (r: &'static str)
    requires
        d < 10,
    ensures
        r@ == seq![digit_char(d)],
{
    proof {
        reveal_strlit("0");
        reveal_strlit("1");
        reveal_strlit("2");
        reveal_strlit("3");
        reveal_strlit("4");
        reveal_strlit("5");
        reveal_strlit("6");
        reveal_strlit("7");
        reveal_strlit("8");
        reveal_strlit("9");
    }
    match d {
        0 => "0",
        1 => "1",
        2 => "2",
        3 => "3",
        4 => "4",
        5 => "5",
        6 => "6",
        7 => "7",
        8 => "8",
        _ => "9",
    }
}

fn decimal_string(n: u8) -> (r: String)
    ensures
        r@ == decimal(n),
    decreases n,
{
    if n < 10 {
        String::from_str(digit_str(n))
    } else {
        let head = decimal_string(n / 10);
        head.concat(digit_str(n % 10))
    }
}

/// A message kind that this side reads; its code depends on the kind alone.
pub trait ReceivableJSONPayload: Sized {
    spec fn spec_type_code() -> u8;

    fn type_code() -> (r: u8)
        ensures
            r == Self::spec_type_code(),
    ;
}

/// A message kind that this side writes; its code depends on the kind alone,
/// never on the value.
pub trait SendableJSONPayload: Sized {
    spec fn spec_type_code() -> u8;

    fn type_code(&self) -> (r: u8)
        ensures
            r == Self::spec_type_code(),
    ;
}

pub const HANDSHAKE_CODE: u8 = 0x00;
pub const MESSAGE_CODE: u8 = 0x01;
pub const REPLY_CODE: u8 = 0x02;
pub const PING_CODE: u8 = 0xFF;

impl ReceivableJSONPayload for Handshake {
    open spec fn spec_type_code() -> u8 { HANDSHAKE_CODE }
    fn type_code() -> (r: u8) { HANDSHAKE_CODE }
}

impl SendableJSONPayload for Handshake {
    open spec fn spec_type_code() -> u8 { HANDSHAKE_CODE }
    fn type_code(&self) -> (r: u8) { HANDSHAKE_CODE }
}

impl ReceivableJSONPayload for HandshakeReply {
    open spec fn spec_type_code() -> u8 { HANDSHAKE_CODE }
    fn type_code() -> (r: u8) { HANDSHAKE_CODE }
}

impl SendableJSONPayload for HandshakeReply {
    open spec fn spec_type_code() -> u8 { HANDSHAKE_CODE }
    fn type_code(&self) -> (r: u8) { HANDSHAKE_CODE }
}

impl ReceivableJSONPayload for ClientMessage {
    open spec fn spec_type_code() -> u8 { MESSAGE_CODE }
    fn type_code() -> (r: u8) { MESSAGE_CODE }
}

impl SendableJSONPayload for ClientMessage {
    open spec fn spec_type_code() -> u8 { MESSAGE_CODE }
    fn type_code(&self) -> (r: u8) { MESSAGE_CODE }
}

impl ReceivableJSONPayload for ServerMessage {
    open spec fn spec_type_code() -> u8 { MESSAGE_CODE }
    fn type_code() -> (r: u8) { MESSAGE_CODE }
}

impl SendableJSONPayload for ServerMessage {
    open spec fn spec_type_code() -> u8 { MESSAGE_CODE }
    fn type_code(&self) -> (r: u8) { MESSAGE_CODE }
}

impl ReceivableJSONPayload for MessageReply {
    open spec fn spec_type_code() -> u8 { REPLY_CODE }
    fn type_code() -> (r: u8) { REPLY_CODE }
}

impl SendableJSONPayload for MessageReply {
    open spec fn spec_type_code() -> u8 { REPLY_CODE }
    fn type_code(&self) -> (r: u8) { REPLY_CODE }
}

impl ReceivableJSONPayload for Ping {
    open spec fn spec_type_code() -> u8 { PING_CODE }
    fn type_code() -> (r: u8) { PING_CODE }
}

impl SendableJSONPayload for Ping {
    open spec fn spec_type_code() -> u8 { PING_CODE }
    fn type_code(&self) -> (r: u8) { PING_CODE }
}

impl ReceivableJSONPayload for Pong {
    open spec fn spec_type_code() -> u8 { PING_CODE }
    fn type_code() -> (r: u8) { PING_CODE }
}

impl SendableJSONPayload for Pong {
    open spec fn spec_type_code() -> u8 { PING_CODE }
    fn type_code(&self) -> (r: u8) { PING_CODE }
}

} // verus!
