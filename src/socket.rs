//! Framing of the emulator socket protocol: every message is preceded by
//! its length as a four-byte big-endian integer. A response carries a body
//! of that length followed by a two-byte status word.
use vstd::prelude::*;
use crate::error::TransportError;

verus! {

/// Default host of the emulator.
pub const DEFAULT_EMULATOR_HOST: &'static str = "127.0.0.1";

/// Default port of the emulator.
pub const DEFAULT_EMULATOR_PORT: u16 = 9999;

/// Width of the length prefix.
pub const LENGTH_PREFIX_LEN: usize = 4;

/// Longest payload whose length the prefix can declare.
pub const MAX_FRAME_PAYLOAD: usize = 0xFFFF_FFFF;

/// Big-endian encoding of a 32-bit quantity.
pub open spec fn be32(n: nat) -> Seq<u8> {
    seq![
        (n / 0x100_0000 % 256) as u8,
        (n / 0x1_0000 % 256) as u8,
        (n / 0x100 % 256) as u8,
        (n % 256) as u8,
    ]
}

/// The quantity that four big-endian bytes encode.
pub open spec fn be32_value(b: Seq<u8>) -> nat {
    b[0] as nat * 0x100_0000 + b[1] as nat * 0x1_0000 + b[2] as nat * 0x100 + b[3] as nat
}

/// A payload preceded by its length.
pub open spec fn frame(data: Seq<u8>) -> Seq<u8> {
    be32(data.len()) + data
}

/// What decoding a length-prefixed frame yields: its payload when the
/// bytes hold exactly the declared length after the prefix.
pub open spec fn unframed(bytes: Seq<u8>) -> Result<Seq<u8>, TransportError> {
    if bytes.len() < 4 {
        Err(TransportError::ShortRead)
    } else if bytes.len() < 4 + be32_value(bytes) {
        Err(TransportError::ShortRead)
    } else if bytes.len() > 4 + be32_value(bytes) {
        Err(TransportError::ProtocolViolation)
    } else {
        Ok(bytes.subrange(4, bytes.len() as int))
    }
}

/// Prefixes `data` with its length, ready for one write to the socket.
///
/// Fails with `PayloadTooLong` exactly when the length does not fit the
/// four-byte prefix.
pub fn encode_frame(data: &[u8]) -> (r: Result<Vec<u8>, TransportError>)
    ensures
        match r {
            Ok(bytes) => data@.len() <= MAX_FRAME_PAYLOAD && bytes@ == frame(data@),
            Err(e) => data@.len() > MAX_FRAME_PAYLOAD && e == TransportError::PayloadTooLong,
        },
{
    if data.len() > MAX_FRAME_PAYLOAD {
        return Err(TransportError::PayloadTooLong);
    }
    let len: usize = data.len();
    let mut bytes: Vec<u8> = Vec::new();
    bytes.push((len / 0x100_0000 % 256) as u8);
    bytes.push((len / 0x1_0000 % 256) as u8);
    bytes.push((len / 0x100 % 256) as u8);
    bytes.push((len % 256) as u8);
    let ghost prefix = bytes@;
    assert(prefix =~= be32(len as nat));
    let mut k: usize = 0;
    while k < len
        invariant
            len == data@.len(),
            k <= len,
            bytes@ == prefix + data@.subrange(0, k as int),
        decreases len - k,
    {
        bytes.push(data[k]);
        k = k + 1;
        assert(bytes@ =~= prefix + data@.subrange(0, k as int));
    }
    assert(data@.subrange(0, len as int) =~= data@);
    Ok(bytes)
}

/// The length that a four-byte prefix declares.
pub fn read_length(prefix: &[u8]) -> (r: u32)
    requires
        prefix@.len() == 4,
    ensures
        r == be32_value(prefix@),
{
    (prefix[0] as u32) * 0x100_0000 + (prefix[1] as u32) * 0x1_0000 + (prefix[2] as u32) * 0x100
        + (prefix[3] as u32)
}

/// Decodes one length-prefixed frame: the payload, `ShortRead` when fewer
/// bytes than declared are present, `ProtocolViolation` when more are.
pub fn decode_frame(bytes: &[u8]) -> (r: Result<Vec<u8>, TransportError>)
    ensures
        match r {
            Ok(data) => unframed(bytes@) == Ok::<Seq<u8>, TransportError>(data@),
            Err(e) => unframed(bytes@) == Err::<Seq<u8>, TransportError>(e),
        },
{
    if bytes.len() < LENGTH_PREFIX_LEN {
        return Err(TransportError::ShortRead);
    }
    let n: usize = read_length(&bytes[0..4]) as usize;
    assert(bytes@.subrange(0, 4) == bytes@.subrange(0, 4));
    let rest: usize = bytes.len() - LENGTH_PREFIX_LEN;
    if rest < n {
        return Err(TransportError::ShortRead);
    }
    if rest > n {
        return Err(TransportError::ProtocolViolation);
    }
    let mut data: Vec<u8> = Vec::with_capacity(n);
    let mut k: usize = LENGTH_PREFIX_LEN;
    while k < bytes.len()
        invariant
            4 <= k <= bytes@.len(),
            data@ == bytes@.subrange(4, k as int),
        decreases bytes@.len() - k,
    {
        data.push(bytes[k]);
        k = k + 1;
        assert(data@ =~= bytes@.subrange(4, k as int));
    }
    Ok(data)
}

/// Decoding the frame of any payload whose length fits the prefix gives the
/// payload back.
pub proof fn lemma_socket_round_trip(data: Seq<u8>)
    requires
        data.len() <= MAX_FRAME_PAYLOAD,
    ensures
        unframed(frame(data)) == Ok::<Seq<u8>, TransportError>(data),
{
    let n = data.len();
    let f = frame(data);
    assert(be32_value(f) == n) by (nonlinear_arith)
        requires
            n < 0x1_0000_0000,
            f[0] == (n / 0x100_0000 % 256) as u8,
            f[1] == (n / 0x1_0000 % 256) as u8,
            f[2] == (n / 0x100 % 256) as u8,
            f[3] == (n % 256) as u8,
            be32_value(f) == f[0] as nat * 0x100_0000 + f[1] as nat * 0x1_0000 + f[2] as nat * 0x100 + f[3] as nat;
    assert(f.subrange(4, f.len() as int) =~= data);
}

} // verus!
