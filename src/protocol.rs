//! The control-channel wire format spoken with a worker.
use vstd::prelude::*;

verus! {

/// Sent by the client to turn a fresh connection into a control channel.
pub const REQUEST_CONTROL: u8 = 0x04;

/// The worker's reply when it accepts the control channel.
pub const CHANNEL_ACCEPTED: u8 = 0x06;

/// Tag of a heartbeat frame; an 8-byte utilization value follows it.
pub const HEARTBEAT: u8 = 0x07;

/// Sent by the client, best effort, when it closes the control channel.
pub const CLOSE: u8 = 0x03;

/// The capability byte that means "may be selected while overloaded".
pub const CAN_OVERLOAD: u8 = 0x01;

/// Width of an encoded utilization value.
pub const VALUE_LEN: usize = 8;

/// Width of the handshake fields that follow `CHANNEL_ACCEPTED`:
/// the utilization threshold, then the capability byte.
pub const HANDSHAKE_FIELDS_LEN: usize = 9;

/// A malformed control-channel exchange.
#[derive(Debug, Clone, Copy, PartialEq, Eq, Structural)]
pub enum ProtocolError {
    /// The handshake reply was not `CHANNEL_ACCEPTED`.
    UnexpectedReply(u8),
    /// A frame had the wrong number of bytes.
    BadLength(usize),
}

/// What a worker announces when it accepts a control channel.
///
/// Utilization values travel as the bit patterns of IEEE 754 binary64
/// numbers and are kept here in that form.
#[derive(Debug, Clone, Copy, PartialEq, Eq, Structural)]
pub struct Handshake {
    /// Bits of the utilization above which the worker counts as overloaded.
    pub max_utilization: u64,
    /// Whether the worker may still be selected while overloaded.
    pub can_overload: bool,
}

/// The big-endian value of the first eight bytes of `b`.
pub open spec fn be_u64(b: Seq<u8>) -> int {
    b[0] * 0x100_0000_0000_0000 + b[1] * 0x1_0000_0000_0000 + b[2] * 0x100_0000_0000
        + b[3] * 0x1_0000_0000 + b[4] * 0x100_0000 + b[5] * 0x1_0000 + b[6] * 0x100 + b[7]
}

/// The sign bit of a binary64 bit pattern.
pub open spec fn sign_bit() -> int {
    0x8000_0000_0000_0000
}

/// The magnitude bits (exponent and fraction) of a binary64 bit pattern.
pub open spec fn magnitude(x: u64) -> int {
    (x as int) % sign_bit()
}

/// The magnitude bits of positive infinity; every larger magnitude is a NaN.
pub open spec fn infinity_magnitude() -> int {
    0x7FF0_0000_0000_0000
}

pub open spec fn is_nan(x: u64) -> bool {
    magnitude(x) > infinity_magnitude()
}

/// For non-NaN patterns, binary64 values are ordered as their magnitude
/// bits with the sign applied; both zeros map to 0.
pub open spec fn ordering_key(x: u64) -> int {
    if x as int >= sign_bit() {
        -magnitude(x)
    } else {
        magnitude(x)
    }
}

/// Whether the binary64 value with bits `a` is strictly greater than the one
/// with bits `b`. Comparisons with NaN are false.
pub open spec fn exceeds(a: u64, b: u64) -> bool {
    !is_nan(a) && !is_nan(b) && ordering_key(a) > ordering_key(b)
}

/// Checks the worker's one-byte reply to `REQUEST_CONTROL`.
pub fn check_reply(reply: u8) -> (r: Result<(), ProtocolError>)
    ensures
        r == (if reply == CHANNEL_ACCEPTED {
            Ok::<(), ProtocolError>(())
        } else {
            Err(ProtocolError::UnexpectedReply(reply))
        }),
{
    if reply == CHANNEL_ACCEPTED {
        Ok(())
    } else {
        Err(ProtocolError::UnexpectedReply(reply))
    }
}

/// Reads eight big-endian bytes of `b` starting at `start`.
pub fn read_be_u64(b: &[u8], start: usize) -> (r: u64)
    requires
        start + 8 <= b@.len(),
    ensures
        r as int == be_u64(b@.subrange(start as int, start + 8)),
{
    let r = (b[start] as u64) * 0x100_0000_0000_0000 + (b[start + 1] as u64) * 0x1_0000_0000_0000
        + (b[start + 2] as u64) * 0x100_0000_0000 + (b[start + 3] as u64) * 0x1_0000_0000
        + (b[start + 4] as u64) * 0x100_0000 + (b[start + 5] as u64) * 0x1_0000 + (b[start + 6]
        as u64) * 0x100 + (b[start + 7] as u64);
    r
}

/// Decodes the utilization value of a heartbeat frame (the bytes after the tag).
pub fn decode_utilization(b: &[u8]) -> (r: Result<u64, ProtocolError>)
    ensures
        b@.len() == VALUE_LEN ==> r == Ok::<u64, ProtocolError>(be_u64(b@) as u64),
        b@.len() != VALUE_LEN ==> r == Err::<u64, ProtocolError>(
            ProtocolError::BadLength(b@.len() as usize),
        ),
{
    if b.len() != VALUE_LEN {
        return Err(ProtocolError::BadLength(b.len()));
    }
    let v = read_be_u64(b, 0);
    assert(b@.subrange(0, 8) =~= b@);
    Ok(v)
}

/// Decodes the handshake fields that follow `CHANNEL_ACCEPTED`: an 8-byte
/// big-endian threshold, then the capability byte (`CAN_OVERLOAD` means true).
pub fn decode_handshake(b: &[u8]) -> (r: Result<Handshake, ProtocolError>)
    ensures
        b@.len() == HANDSHAKE_FIELDS_LEN ==> r == Ok::<Handshake, ProtocolError>(
            (Handshake { max_utilization: be_u64(b@) as u64, can_overload: b@[8] == CAN_OVERLOAD }),
        ),
        b@.len() != HANDSHAKE_FIELDS_LEN ==> r == Err::<Handshake, ProtocolError>(
            ProtocolError::BadLength(b@.len() as usize),
        ),
{
    if b.len() != HANDSHAKE_FIELDS_LEN {
        return Err(ProtocolError::BadLength(b.len()));
    }
    let max_utilization = read_be_u64(b, 0);
    Ok(Handshake { max_utilization, can_overload: b[8] == CAN_OVERLOAD })
}

/// Whether a reported utilization is strictly above the threshold, both given
/// as binary64 bit patterns.
pub fn is_above_threshold(utilization: u64, max_utilization: u64) -> (r: bool)
    ensures
        r == exceeds(utilization, max_utilization),
{
    let sign: u64 = 0x8000_0000_0000_0000;
    let infinity: u64 = 0x7FF0_0000_0000_0000;
    let um = utilization % sign;
    let mm = max_utilization % sign;
    if um > infinity || mm > infinity {
        return false;
    }
    let u_neg = utilization >= sign;
    let m_neg = max_utilization >= sign;
    if !u_neg && !m_neg {
        um > mm
    } else if u_neg && m_neg {
        um < mm
    } else if !u_neg {
        // positive against negative: greater unless both are zero
        um > 0 || mm > 0
    } else {
        false
    }
}

} // verus!
