//! Length-prefixed frames: `[u32 LE: payload length][payload]`.
//!
//! A header that declares more than `MAX_FRAME_SIZE` bytes is refused
//! before any buffer is allocated for the payload.
use vstd::prelude::*;

verus! {

/// Largest payload a frame may carry (64 KiB).
pub const MAX_FRAME_SIZE: u32 = 65536;

/// Why a frame was refused.
#[derive(Debug, Clone, Copy, PartialEq, Eq)]
pub enum FrameError {
    /// The payload, or the length a header declares, is above
    /// `MAX_FRAME_SIZE`.
    TooLarge { len: u32 },
    /// A header declares an empty payload.
    Empty,
    /// The input ends inside the 4-byte header.
    ShortHeader,
    /// The input ends before the declared payload does.
    ShortPayload,
}

/// The 4 little-endian bytes of `x`.
pub open spec fn le_bytes(x: u32) -> Seq<u8> {
    seq![(x % 256) as u8, ((x / 256) % 256) as u8, ((x / 65536) % 256) as u8, (x / 16777216) as u8]
}

/// The number that 4 little-endian bytes encode.
pub open spec fn le_value(b: Seq<u8>) -> u32 {
    (b[0] + 256 * b[1] + 65536 * b[2] + 16777216 * b[3]) as u32
}

/// The length a payload declares in its header: its length as `u32`.
pub open spec fn declared_len(payload: Seq<u8>) -> u32 {
    payload.len() as u32
}

/// The frame that carries `payload`.
pub open spec fn frame(payload: Seq<u8>) -> Seq<u8> {
    le_bytes(declared_len(payload)) + payload
}

/// What reading one frame from the front of `input` gives: the payload
/// and the number of bytes the frame takes.
pub open spec fn read_frame(input: Seq<u8>) -> Result<(Seq<u8>, nat), FrameError> {
    if input.len() < 4 {
        Err(FrameError::ShortHeader)
    } else {
        let len = le_value(input.take(4));
        if len > MAX_FRAME_SIZE {
            Err(FrameError::TooLarge { len })
        } else if len == 0 {
            Err(FrameError::Empty)
        } else if input.len() < 4 + len {
            Err(FrameError::ShortPayload)
        } else {
            Ok((input.subrange(4, 4 + len), (4 + len) as nat))
        }
    }
}

proof fn lemma_le_roundtrip(x: u32)
    ensures
        le_value(le_bytes(x)) == x,
        le_bytes(x).len() == 4,
{
    let b = le_bytes(x);
    assert(b[0] == x % 256);
    assert(b[1] == (x / 256) % 256);
    assert(b[2] == (x / 65536) % 256);
    assert(b[3] == x / 16777216);
    assert(b[0] + 256 * b[1] + 65536 * b[2] + 16777216 * b[3] == x) by (nonlinear_arith)
        requires
            b[0] == x % 256,
            b[1] == (x / 256) % 256,
            b[2] == (x / 65536) % 256,
            b[3] == x / 16777216,
            x <= 0xffff_ffff,
    ;
}

/// Appends to `out` the frame that carries `payload`. A payload whose
/// length, taken as `u32`, is above `MAX_FRAME_SIZE` is refused and `out`
/// is left as it was.
pub fn write_message(out: &mut Vec<u8>, payload: &[u8]) -> (r: Result<(), FrameError>)
    ensures
        declared_len(payload@) > MAX_FRAME_SIZE ==> r == Err::<(), FrameError>(
            FrameError::TooLarge { len: declared_len(payload@) },
        ) && final(out)@ == old(out)@,
        declared_len(payload@) <= MAX_FRAME_SIZE ==> r is Ok && final(out)@ == old(out)@ + frame(
            payload@,
        ),
{
    let len = payload.len() as u32;
    if len > MAX_FRAME_SIZE {
        return Err(FrameError::TooLarge { len });
    }
    let ghost o = out@;
    out.push((len % 256) as u8);
    out.push(((len / 256) % 256) as u8);
    out.push(((len / 65536) % 256) as u8);
    out.push((len / 16777216) as u8);
    let mut i: usize = 0;
    while i < payload.len()
        invariant
            i <= payload@.len(),
            len == declared_len(payload@),
            out@ == o + le_bytes(len) + payload@.take(i as int),
        decreases payload.len() - i,
    {
        out.push(payload[i]);
        i += 1;
        proof {
            assert(payload@.take(i as int) == payload@.take(i - 1).push(payload@[i - 1]));
        }
    }
    proof {
        assert(payload@.take(payload@.len() as int) == payload@);
        assert(out@ =~= o + frame(payload@));
    }
    Ok(())
}

/// Checks a received header and gives the payload length it declares; a
/// length above `MAX_FRAME_SIZE`, or zero, is refused.
pub fn decode_frame_header(header: [u8; 4]) -> (r: Result<usize, FrameError>)
    ensures
        match r {
            Ok(n) => 0 < n <= MAX_FRAME_SIZE && n == le_value(header@),
            Err(e) => {
                ||| le_value(header@) > MAX_FRAME_SIZE && e == FrameError::TooLarge {
                    len: le_value(header@),
                }
                ||| le_value(header@) == 0 && e == FrameError::Empty
            },
        },
{
    let len: u32 = (header[0] as u32) + 256 * (header[1] as u32) + 65536 * (header[2] as u32)
        + 16777216 * (header[3] as u32);
    if len > MAX_FRAME_SIZE {
        return Err(FrameError::TooLarge { len });
    }
    if len == 0 {
        return Err(FrameError::Empty);
    }
    Ok(len as usize)
}

/// Reads one frame from the front of `input`: its payload, and the number
/// of bytes the frame takes.
pub fn read_message(input: &[u8]) -> (r: Result<(Vec<u8>, usize), FrameError>)
    ensures
        match r {
            Ok((p, n)) => read_frame(input@) == Ok::<(Seq<u8>, nat), FrameError>((p@, n as nat)),
            Err(e) => read_frame(input@) == Err::<(Seq<u8>, nat), FrameError>(e),
        },
{
    if input.len() < 4 {
        return Err(FrameError::ShortHeader);
    }
    let header: [u8; 4] = [input[0], input[1], input[2], input[3]];
    proof {
        assert(header@ =~= input@.take(4));
    }
    let len = decode_frame_header(header)?;
    if input.len() - 4 < len {
        return Err(FrameError::ShortPayload);
    }
    let mut payload: Vec<u8> = Vec::new();
    let mut i: usize = 0;
    while i < len
        invariant
            i <= len,
            4 + len <= input@.len(),
            input.len() >= 4,
            len <= input.len() - 4,
            payload@ == input@.subrange(4, 4 + i),
        decreases len - i,
    {
        payload.push(input[4 + i]);
        i += 1;
        proof {
            assert(input@.subrange(4, 4 + i) == input@.subrange(4, 4 + i - 1).push(input@[4 + i - 1]));
        }
    }
    Ok((payload, 4 + len))
}

/// A frame written by `write_message` reads back, through `read_message`,
/// as the same payload, whatever follows it: for every payload of 1 to
/// `MAX_FRAME_SIZE` bytes.
pub proof fn law_frame_roundtrip(payload: Seq<u8>, rest: Seq<u8>)
    requires
        0 < payload.len() <= MAX_FRAME_SIZE,
    ensures
        read_frame(frame(payload) + rest) == Ok::<(Seq<u8>, nat), FrameError>(
            (payload, (4 + payload.len()) as nat),
        ),
{
    let x = declared_len(payload);
    assert(x == payload.len());
    lemma_le_roundtrip(x);
    let input = frame(payload) + rest;
    assert(input.take(4) =~= le_bytes(x));
    assert(input.subrange(4, 4 + payload.len() as int) =~= payload);
}

/// A header that declares more than `MAX_FRAME_SIZE` bytes is refused
/// whatever follows it.
pub proof fn law_oversized_header_refused(input: Seq<u8>)
    requires
        input.len() >= 4,
        le_value(input.take(4)) > MAX_FRAME_SIZE,
    ensures
        read_frame(input) == Err::<(Seq<u8>, nat), FrameError>(
            FrameError::TooLarge { len: le_value(input.take(4)) },
        ),
{
}

} // verus!
