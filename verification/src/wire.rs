//! The wire format of an input message.
//!
//! A message is six bytes: the sender's handle, the frame as four bytes with
//! the least significant first, and the input symbol. Messages may be lost,
//! repeated or reordered on the way; each stands for itself.

use vstd::prelude::*;
use crate::scheduler::InputMessage;
use crate::state::NUM_PLAYERS;

verus! {

/// The length of a message in bytes.
pub const MESSAGE_LEN: usize = 6;

/// The frame that four bytes stand for, least significant byte first.
pub open spec fn frame_of_bytes(b0: u8, b1: u8, b2: u8, b3: u8) -> int {
    b0 + 256 * b1 + 65536 * b2 + 16777216 * b3
}

/// The bytes of a message.
pub open spec fn encode_message_spec(message: InputMessage) -> Seq<u8> {
    seq![
        message.sender as u8,
        (message.frame % 256) as u8,
        ((message.frame / 256) % 256) as u8,
        ((message.frame / 65536) % 256) as u8,
        (message.frame / 16777216) as u8,
        message.symbol,
    ]
}

/// The message that bytes stand for: none unless there are exactly six of
/// them and the first is a player handle.
pub open spec fn decode_message_spec(bytes: Seq<u8>) -> Option<InputMessage> {
    if bytes.len() == MESSAGE_LEN && bytes[0] < NUM_PLAYERS {
        Some(
            InputMessage {
                sender: bytes[0] as usize,
                frame: frame_of_bytes(bytes[1], bytes[2], bytes[3], bytes[4]) as u32,
                symbol: bytes[5],
            },
        )
    } else {
        None
    }
}

/// Decoding inverts encoding: the bytes of a message of a player stand for
/// that message.
pub proof fn decode_inverts_encode_message(message: InputMessage)
    requires
        message.sender < NUM_PLAYERS,
    ensures
        encode_message_spec(message).len() == MESSAGE_LEN,
        decode_message_spec(encode_message_spec(message)) == Some(message),
{
}

/// The bytes of `message`, the input of a player.
pub fn encode_message(message: InputMessage) -> (bytes: Vec<u8>)
    requires
        message.sender < NUM_PLAYERS,
    ensures
        bytes@ == encode_message_spec(message),
        decode_message_spec(bytes@) == Some(message),
{
    let mut bytes: Vec<u8> = Vec::new();
    bytes.push(message.sender as u8);
    bytes.push((message.frame % 256) as u8);
    bytes.push(((message.frame / 256) % 256) as u8);
    bytes.push(((message.frame / 65536) % 256) as u8);
    bytes.push((message.frame / 16777216) as u8);
    bytes.push(message.symbol);
    proof {
        assert(bytes@ =~= encode_message_spec(message));
        decode_inverts_encode_message(message);
    }
    bytes
}

/// The message that `bytes` stand for. Fails exactly when `bytes` are not six
/// bytes or do not begin with a player handle.
pub fn decode_message(bytes: &[u8]) -> (message: Option<InputMessage>)
    ensures
        message == decode_message_spec(bytes@),
{
    if bytes.len() != MESSAGE_LEN {
        return None;
    }
    if bytes[0] as usize >= NUM_PLAYERS {
        return None;
    }
    let frame: u32 = bytes[1] as u32 + 256 * (bytes[2] as u32) + 65536 * (bytes[3] as u32)
        + 16777216 * (bytes[4] as u32);
    Some(InputMessage { sender: bytes[0] as usize, frame, symbol: bytes[5] })
}

} // verus!
