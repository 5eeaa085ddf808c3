//! Wire messages as seen by the routing core.
//!
//! The wire format and the packet-type taxonomy belong to the encoding
//! collaborator; here a message is its kind together with an opaque
//! payload, which is all the routing substrate inspects.

use vstd::prelude::*;

use crate::error::NetError;

verus! {

/// Identifies one kind of wire message.  The concrete taxonomy lives in
/// the encoding collaborator; the core only compares kinds for equality.
pub type PacketType = u64;

/// One decoded wire message: its kind plus the opaque payload bytes.
pub struct Message {
    packet_type: PacketType,
    payload: Vec<u8>,
}

/// Mathematical value of a [`Message`].
#[verifier::ext_equal]
pub struct MessageView {
    pub packet_type: PacketType,
    pub payload: Seq<u8>,
}

impl View for Message {
    type V = MessageView;

    closed spec fn view(&self) -> MessageView {
        MessageView { packet_type: self.packet_type, payload: self.payload@ }
    }
}

impl Message {
    /// Builds a message of the given kind around its payload bytes.
    pub fn new(packet_type: PacketType, payload: Vec<u8>) -> (m: Message)
        ensures
            m@ == (MessageView { packet_type, payload: payload@ }),
    {
        Message { packet_type, payload }
    }

    /// The message's kind, used to pick which subscribers receive it.
    pub fn packet_type(&self) -> (t: PacketType)
        ensures
            t == self@.packet_type,
    {
        self.packet_type
    }

    /// Read access to the payload bytes.
    pub fn payload(&self) -> (p: &Vec<u8>)
        ensures
            p@ == self@.payload,
    {
        &self.payload
    }

    /// An equal copy of the message, one per delivery sink.
    pub fn dup(&self) -> (m: Message)
        ensures
            m@ == self@,
    {
        let payload = self.payload.clone();
        proof {
            assert(payload@ =~= self.payload@);
        }
        Message { packet_type: self.packet_type, payload }
    }
}

/// What a message subscriber receives: either a decoded message or the
/// terminal error that ended the channel.
pub type MessageResult = Result<Message, NetError>;

/// Mathematical value of a [`MessageResult`].
pub type MessageResultView = Result<MessageView, NetError>;

/// View of a delivered result.
pub open spec fn result_view(r: MessageResult) -> MessageResultView {
    match r {
        Ok(m) => Ok(m@),
        Err(e) => Err(e),
    }
}

/// An equal copy of a delivery result.
pub fn dup_result(r: &MessageResult) -> (d: MessageResult)
    ensures
        result_view(d) == result_view(*r),
{
    match r {
        Ok(m) => Ok(m.dup()),
        Err(e) => Err(*e),
    }
}

} // verus!
