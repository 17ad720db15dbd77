//! Correlation tags: what a submission was, packed into the 64-bit token that
//! travels with it through the kernel and comes back on each completion.
//!
//! The packing is explicit and dense. `Accept` is 0 and `Send` is 1. The
//! receives follow from 2 on: a receive is 2 plus a 48-bit number whose low 16
//! bits are the buffer group and whose high 32 bits are the socket
//! descriptor's bit pattern. Every token up to the last receive stands for
//! exactly one tag.

use vstd::prelude::*;

verus! {

/// Identifier of a group of provided buffers.
pub type BgId = u16;

/// Size in bytes of one provided buffer.
pub type REntrySize = u32;

/// What a submission asked for.
#[derive(Clone, Copy, Debug, PartialEq, Eq, Structural)]
pub enum IOUringOp {
    Accept,
    Send,
    Recv { sockfd: i32, bgid: BgId },
}

/// The largest token that stands for a tag: the receive on descriptor -1 from
/// group 65535.
pub const LAST_TOKEN: u64 = 0x1_0000_0000_0001;

/// The 32-bit pattern of a descriptor, as a number in `0 .. 2^32`.
pub open spec fn fd_bits(fd: i32) -> int {
    if fd >= 0 {
        fd as int
    } else {
        fd as int + 0x1_0000_0000
    }
}

/// The descriptor whose 32-bit pattern is `bits`.
pub open spec fn fd_of_bits(bits: int) -> int {
    if bits < 0x8000_0000 {
        bits
    } else {
        bits - 0x1_0000_0000
    }
}

impl IOUringOp {
    /// The token that stands for `self`.
    pub open spec fn encode(self) -> int {
        match self {
            IOUringOp::Accept => 0,
            IOUringOp::Send => 1,
            IOUringOp::Recv { sockfd, bgid } => 2 + bgid as int + fd_bits(sockfd) * 0x1_0000,
        }
    }

    /// Whether `token` stands for some tag.
    pub open spec fn is_encoding(token: u64) -> bool {
        token <= LAST_TOKEN
    }

    /// The tag that `token` stands for, where `is_encoding(token)`.
    pub open spec fn decode(token: u64) -> IOUringOp {
        if token == 0 {
            IOUringOp::Accept
        } else if token == 1 {
            IOUringOp::Send
        } else {
            IOUringOp::Recv {
                sockfd: fd_of_bits((token as int - 2) / 0x1_0000) as i32,
                bgid: ((token as int - 2) % 0x1_0000) as u16,
            }
        }
    }

    /// Tells whether a token read back from a completion stands for a tag.
    pub fn is_valid(userdata: u64) -> (ok: bool)
        ensures
            ok == Self::is_encoding(userdata),
    {
        userdata <= LAST_TOKEN
    }

    /// Unpacks a token. A token that stands for no tag is a logic error of the
    /// caller: only tokens made by `into_u64` are meant to reach this function.
    pub fn from_u64(userdata: u64) -> (op: IOUringOp)
        requires
            Self::is_encoding(userdata),
        ensures
            op == Self::decode(userdata),
            op.encode() == userdata,
    {
        if userdata == 0 {
            IOUringOp::Accept
        } else if userdata == 1 {
            IOUringOp::Send
        } else {
            let packed: u64 = userdata - 2;
            let bits: u64 = packed / 0x1_0000;
            let group: u64 = packed % 0x1_0000;
            let sockfd: i32 = if bits < 0x8000_0000 {
                bits as i32
            } else {
                (bits as i64 - 0x1_0000_0000) as i32
            };
            IOUringOp::Recv { sockfd, bgid: group as u16 }
        }
    }

    /// Unpacks a token, or gives `None` where it stands for no tag.
    pub fn try_from_u64(userdata: u64) -> (op: Option<IOUringOp>)
        ensures
            op.is_some() == Self::is_encoding(userdata),
            op.is_some() ==> op.unwrap() == Self::decode(userdata),
    {
        if Self::is_valid(userdata) {
            Some(Self::from_u64(userdata))
        } else {
            None
        }
    }

    /// Packs the tag into its token.
    pub fn into_u64(self) -> (token: u64)
        ensures
            token == self.encode(),
            Self::is_encoding(token),
            Self::decode(token) == self,
    {
        match self {
            IOUringOp::Accept => 0,
            IOUringOp::Send => 1,
            IOUringOp::Recv { sockfd, bgid } => {
                let bits: u64 = if sockfd >= 0 {
                    sockfd as u64
                } else {
                    (sockfd as i64 + 0x1_0000_0000) as u64
                };
                2 + (bgid as u64) + bits * 0x1_0000
            },
        }
    }
}

/// Round trip: every tag packs into a 64-bit token that is recognised as one
/// and unpacks to the same tag.
pub proof fn lemma_decode_encode(op: IOUringOp)
    ensures
        0 <= op.encode() <= u64::MAX,
        IOUringOp::is_encoding(op.encode() as u64),
        IOUringOp::decode(op.encode() as u64) == op,
{
}

/// Round trip the other way: a token that stands for a tag is the packing of
/// the tag it unpacks to, so no two tokens stand for one tag.
pub proof fn lemma_encode_decode(token: u64)
    requires
        IOUringOp::is_encoding(token),
    ensures
        IOUringOp::decode(token).encode() == token,
{
}

/// Two tags with the same token are the same tag.
pub proof fn lemma_encode_injective(a: IOUringOp, b: IOUringOp)
    requires
        a.encode() == b.encode(),
    ensures
        a == b,
{
    lemma_decode_encode(a);
    lemma_decode_encode(b);
}

} // verus!
