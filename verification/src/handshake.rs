//! The text handshake that opens a session.
//!
//! A handshake message is no gram: it is ASCII text, told apart from a gram by
//! its first bytes. Outbound it is `conn_req:` followed by the two bytes of the
//! local video port, low byte first. Inbound it is `conn_ack:` followed by
//! bytes that are not looked at.

use vstd::prelude::*;
use vstd::string::{is_ascii_spec_bytes, StringSliceAdditionalSpecFns};
use crate::gram::{high_byte, low_byte, received};

verus! {

/// The byte that ends the command word of a handshake message: `:`.
pub const COLON: u8 = 0x3a;

/// Number of bytes of the text `conn_ack:`.
pub const CONNECT_ACK_LEN: usize = 9;

/// The ASCII text `conn_req:`.
pub open spec fn connect_request_prefix() -> Seq<u8> {
    seq![0x63u8, 0x6f, 0x6e, 0x6e, 0x5f, 0x72, 0x65, 0x71, 0x3a]
}

/// The ASCII text `conn_ack:`.
pub open spec fn connect_ack_prefix() -> Seq<u8> {
    seq![0x63u8, 0x6f, 0x6e, 0x6e, 0x5f, 0x61, 0x63, 0x6b, 0x3a]
}

/// The handshake message that announces `video_port`.
pub open spec fn connect_request_bytes(video_port: u16) -> Seq<u8> {
    connect_request_prefix() + seq![low_byte(video_port), high_byte(video_port)]
}

/// Whether the received part of `buffer` starts with `conn_ack:`.
pub open spec fn is_connect_ack_spec(buffer: Seq<u8>, received_len: nat) -> bool {
    connect_ack_prefix().is_prefix_of(buffer.take(received(buffer, received_len) as int))
}

/// A request to open a session: a command word and the local port on which
/// the video stream is expected.
#[derive(Clone, Copy, Debug, PartialEq, Eq)]
pub struct TelloConnectRequest<'a> {
    pub cmd: &'a str,
    pub video_port: u16,
}

/// The bytes of the text `conn_req`.
pub proof fn lemma_connect_command_bytes()
    ensures
        "conn_req".spec_bytes() + seq![COLON] == connect_request_prefix(),
{
    reveal_strlit("conn_req");
    is_ascii_spec_bytes("conn_req");
}

/// The bytes of the text `conn_ack:`.
pub proof fn lemma_connect_ack_bytes()
    ensures
        "conn_ack:".spec_bytes() == connect_ack_prefix(),
{
    reveal_strlit("conn_ack:");
    is_ascii_spec_bytes("conn_ack:");
}

impl<'a> TelloConnectRequest<'a> {
    /// The request that announces `video_port`.
    pub fn connect(video_port: u16) -> (request: TelloConnectRequest<'a>)
        ensures
            request.cmd@ == "conn_req"@,
            request.video_port == video_port,
            request.wire() == connect_request_bytes(video_port),
    {
        proof {
            lemma_connect_command_bytes();
        }
        TelloConnectRequest { cmd: "conn_req", video_port }
    }

    /// The message as it goes on the wire: the command word, a colon, and the
    /// port's low and high byte.
    pub open spec fn wire(&self) -> Seq<u8> {
        self.cmd.spec_bytes() + seq![COLON, low_byte(self.video_port), high_byte(self.video_port)]
    }

    /// Serialises the request.
    pub fn as_bytes(&self) -> (bytes: Vec<u8>)
        ensures
            bytes@ == self.wire(),
    {
        let command_bytes: &[u8] = self.cmd.as_bytes();
        let mut bytes: Vec<u8> = Vec::new();
        let mut i: usize = 0;
        while i < command_bytes.len()
            invariant
                i <= command_bytes.len(),
                bytes@ == command_bytes@.subrange(0, i as int),
            decreases command_bytes.len() - i,
        {
            bytes.push(command_bytes[i]);
            i += 1;
        }
        bytes.push(COLON);
        bytes.push((self.video_port % 256) as u8);
        bytes.push((self.video_port / 256) as u8);
        bytes
    }
}

/// Tells whether the datagram in `buffer`, of which the first `received_len`
/// bytes were received, is the vehicle's answer to a connect request.
pub fn is_connect_ack(buffer: &[u8], received_len: usize) -> (ack: bool)
    ensures
        ack == is_connect_ack_spec(buffer@, received_len as nat),
{
    let avail: usize = if received_len <= buffer.len() {
        received_len
    } else {
        buffer.len()
    };
    if avail < CONNECT_ACK_LEN {
        return false;
    }
    let expected: &[u8] = "conn_ack:".as_bytes();
    proof {
        lemma_connect_ack_bytes();
    }
    let mut i: usize = 0;
    while i < CONNECT_ACK_LEN
        invariant
            i <= CONNECT_ACK_LEN <= avail <= buffer.len(),
            expected@ == connect_ack_prefix(),
            forall|j: int| 0 <= j < i ==> buffer[j] == expected[j],
        decreases CONNECT_ACK_LEN - i,
    {
        if buffer[i] != expected[i] {
            return false;
        }
        i += 1;
    }
    true
}

} // verus!
