//! ChannelData framing.
//!
//! Once a channel binding is ready, application datagrams travel in compact
//! ChannelData frames instead of STUN messages: a 2-byte channel number, a
//! 2-byte payload length, the payload, and zero padding to a 4-byte
//! boundary.  ChannelData frames are told apart from STUN messages by the
//! two high bits of the first byte (`01` against `00`).

use vstd::prelude::*;

use crate::errors::TurnError;
use crate::wire::{be16, pad_len, push_bytes, push_u16, push_zeros, read_u16,
    subrange_of, u16_of, zeros};
use crate::wire::{lemma_be16_roundtrip, lemma_u16_of_inverse};

verus! {

/// The lowest channel number a binding may use.
pub const CHANNEL_MIN: u16 = 0x4000;

/// The highest channel number a binding may use.
pub const CHANNEL_MAX: u16 = 0x7FFF;

/// The bytes of a ChannelData frame carrying `data` on channel `num`.
pub open spec fn channel_data_frame(num: u16, data: Seq<u8>) -> Seq<u8> {
    be16(num) + be16(data.len() as u16) + data + zeros(pad_len(data.len() as int))
}

/// Whether `b` is a well-formed ChannelData frame: channel number in range,
/// declared length consistent with the buffer, and zero padding.
pub open spec fn chandata_wf(b: Seq<u8>) -> bool {
    &&& b.len() >= 4
    &&& CHANNEL_MIN <= u16_of(b[0], b[1]) <= CHANNEL_MAX
    &&& b.len() == 4 + (u16_of(b[2], b[3]) as int) + pad_len(u16_of(b[2], b[3]) as int)
    &&& forall|j: int| 4 + u16_of(b[2], b[3]) <= j < b.len() ==> b[j] == 0
}

/// The framer's output is always accepted: a frame built from a channel
/// number in range and a payload that fits the length field is
/// well-formed, so (by `decode_channel_data`'s contract) decoding gives
/// back the same number and payload.
pub proof fn lemma_frame_well_formed(num: u16, data: Seq<u8>)
    requires
        CHANNEL_MIN <= num <= CHANNEL_MAX,
        data.len() <= 0xFFFF,
    ensures
        chandata_wf(channel_data_frame(num, data)),
{
    let b = channel_data_frame(num, data);
    lemma_be16_roundtrip(num);
    lemma_be16_roundtrip(data.len() as u16);
    assert(b[0] == be16(num)[0] && b[1] == be16(num)[1]);
    assert(b[2] == be16(data.len() as u16)[0] && b[3] == be16(data.len() as u16)[1]);
    assert forall|j: int| 4 + data.len() <= j < b.len() implies b[j] == 0 by {
        assert(b[j] == zeros(pad_len(data.len() as int))[j - 4 - data.len()]);
    }
}

/// Encodes one ChannelData frame.
pub fn encode_channel_data(num: u16, data: &[u8]) -> (r: Vec<u8>)
    requires
        CHANNEL_MIN <= num <= CHANNEL_MAX,
        data@.len() <= 0xFFFF,
    ensures
        r@ == channel_data_frame(num, data@),
{
    let mut r: Vec<u8> = Vec::new();
    push_u16(&mut r, num);
    push_u16(&mut r, data.len() as u16);
    push_bytes(&mut r, data);
    let dlen = data.len();
    let pad: usize = if dlen % 4 == 0 {
        0
    } else {
        4 - dlen % 4
    };
    push_zeros(&mut r, pad);
    assert(r@ =~= channel_data_frame(num, data@));
    r
}

/// Decodes a ChannelData frame, returning the channel number and payload.
/// Succeeds exactly on well-formed frames, and what it accepts re-encodes
/// to the same bytes.
pub fn decode_channel_data(buf: &[u8]) -> (r: Result<(u16, Vec<u8>), TurnError>)
    ensures
        r is Ok <==> chandata_wf(buf@),
        r matches Ok(p) ==> {
            &&& CHANNEL_MIN <= p.0 <= CHANNEL_MAX
            &&& buf@ == channel_data_frame(p.0, p.1@)
        },
        r matches Err(e) ==> e == TurnError::Format,
{
    if buf.len() < 4 {
        return Err(TurnError::Format);
    }
    let num = read_u16(buf, 0);
    if num < CHANNEL_MIN || num > CHANNEL_MAX {
        return Err(TurnError::Format);
    }
    let dlen = read_u16(buf, 2) as usize;
    let pad: usize = if dlen % 4 == 0 {
        0
    } else {
        4 - dlen % 4
    };
    if buf.len() != 4 + dlen + pad {
        return Err(TurnError::Format);
    }
    let end = 4 + dlen;
    let mut j = end;
    while j < buf.len()
        invariant
            end <= j <= buf@.len(),
            end == 4 + dlen,
            dlen + 2 <= buf@.len(),
            dlen == u16_of(buf@[2], buf@[3]),
            forall|k: int| end <= k < j ==> buf@[k] == 0,
        decreases buf@.len() - j,
    {
        if buf[j] != 0 {
            return Err(TurnError::Format);
        }
        j += 1;
    }
    let data = subrange_of(buf, 4, end);
    proof {
        lemma_u16_of_inverse(buf@[0], buf@[1]);
        lemma_u16_of_inverse(buf@[2], buf@[3]);
        assert(buf@ =~= channel_data_frame(num, data@));
    }
    Ok((num, data))
}

/// Whether a datagram looks like a ChannelData frame (first byte `0x40..=0x7F`).
pub fn is_channel_data(buf: &[u8]) -> (r: bool)
    ensures
        r == (buf@.len() > 0 && 0x40 <= buf@[0] && buf@[0] <= 0x7F),
{
    buf.len() > 0 && buf[0] >= 0x40 && buf[0] <= 0x7F
}

/// Whether a datagram looks like a STUN message (two zero high bits).
pub fn is_stun_message(buf: &[u8]) -> (r: bool)
    ensures
        r == (buf@.len() > 0 && buf@[0] < 0x40),
{
    buf.len() > 0 && buf[0] < 0x40
}

} // verus!
