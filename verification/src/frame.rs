//! Decoding of raw data-availability bytes into ordered frames.
//!
//! One L1 block's data-availability input carries zero or more frames, laid
//! out back to back. Each frame is encoded as
//!
//! ```text
//! channel id   8 bytes, big endian
//! frame number 2 bytes, big endian
//! data length  4 bytes, big endian
//! data         `data length` bytes
//! is-last      1 byte, 0 or 1
//! ```
//!
//! Malformed frame encoding is non-fatal: decoding stops at the first byte
//! that does not begin a well-formed frame and the rest of the block's bytes
//! are discarded, so frames are yielded in on-chain order and a bad frame
//! never corrupts frames already decoded.

use vstd::prelude::*;

use crate::types::{Frame, FrameModel};

verus! {

/// The two-byte big-endian integer starting at `i`.
pub open spec fn be16_spec(s: Seq<u8>, i: int) -> u16 {
    ((s[i] as u16) << 8) | (s[i + 1] as u16)
}

/// The four-byte big-endian integer starting at `i`.
pub open spec fn be32_spec(s: Seq<u8>, i: int) -> u32 {
    ((s[i] as u32) << 24) | ((s[i + 1] as u32) << 16) | ((s[i + 2] as u32) << 8) | (s[i
        + 3] as u32)
}

/// The eight-byte big-endian integer starting at `i`.
pub open spec fn be64_spec(s: Seq<u8>, i: int) -> u64 {
    ((s[i] as u64) << 56) | ((s[i + 1] as u64) << 48) | ((s[i + 2] as u64) << 40) | ((s[i
        + 3] as u64) << 32) | ((s[i + 4] as u64) << 24) | ((s[i + 5] as u64) << 16) | ((s[i
        + 6] as u64) << 8) | (s[i + 7] as u64)
}

/// The frame starting at `pos`, if the bytes there form one: the decoded
/// frame and the position just past it.
pub open spec fn parse_frame_spec(s: Seq<u8>, pos: int) -> Option<(FrameModel, int)> {
    if pos + 14 > s.len() {
        Option::None
    } else {
        let len = be32_spec(s, pos + 10) as int;
        if pos + 15 + len > s.len() {
            Option::None
        } else if s[pos + 14 + len] != 0 && s[pos + 14 + len] != 1 {
            Option::None
        } else {
            Option::Some(
                (
                    FrameModel {
                        channel_id: be64_spec(s, pos),
                        number: be16_spec(s, pos + 8),
                        data: s.subrange(pos + 14, pos + 14 + len),
                        is_last: s[pos + 14 + len] == 1,
                    },
                    pos + 15 + len,
                ),
            )
        }
    }
}

/// Every frame decodable from `pos` on: the longest run of back-to-back
/// well-formed frames. Decoding stops at the first malformed frame.
pub open spec fn parse_frames_spec(s: Seq<u8>, pos: int) -> Seq<FrameModel>
    decreases s.len() - pos,
{
    if 0 <= pos <= s.len() {
        match parse_frame_spec(s, pos) {
            Option::None => Seq::empty(),
            Option::Some(fp) => seq![fp.0] + parse_frames_spec(s, fp.1),
        }
    } else {
        Seq::empty()
    }
}

/// Reads the two-byte big-endian integer starting at `pos`.
pub fn read_be16(data: &Vec<u8>, pos: usize) -> (r: u16)
    requires
        pos + 2 <= data@.len(),
    ensures
        r == be16_spec(data@, pos as int),
{
    let n = data.len();
    assert(pos + 2 <= n);
    ((data[pos] as u16) << 8) | (data[pos + 1] as u16)
}

/// Reads the four-byte big-endian integer starting at `pos`.
pub fn read_be32(data: &Vec<u8>, pos: usize) -> (r: u32)
    requires
        pos + 4 <= data@.len(),
    ensures
        r == be32_spec(data@, pos as int),
{
    let n = data.len();
    assert(pos + 4 <= n);
    ((data[pos] as u32) << 24) | ((data[pos + 1] as u32) << 16) | ((data[pos + 2] as u32) << 8) | (
    data[pos + 3] as u32)
}

/// Reads the eight-byte big-endian integer starting at `pos`.
pub fn read_be64(data: &Vec<u8>, pos: usize) -> (r: u64)
    requires
        pos + 8 <= data@.len(),
    ensures
        r == be64_spec(data@, pos as int),
{
    let n = data.len();
    assert(pos + 8 <= n);
    ((data[pos] as u64) << 56) | ((data[pos + 1] as u64) << 48) | ((data[pos + 2] as u64) << 40) | (
    (data[pos + 3] as u64) << 32) | ((data[pos + 4] as u64) << 24) | ((data[pos + 5] as u64) << 16)
        | ((data[pos + 6] as u64) << 8) | (data[pos + 7] as u64)
}

/// Copies the byte range `[a, b)`.
pub fn copy_range(data: &Vec<u8>, a: usize, b: usize) -> (r: Vec<u8>)
    requires
        a <= b <= data@.len(),
    ensures
        r@ == data@.subrange(a as int, b as int),
{
    let mut r: Vec<u8> = Vec::new();
    let mut i: usize = a;
    while i < b
        invariant
            a <= i <= b <= data@.len(),
            r@ == data@.subrange(a as int, i as int),
        decreases b - i,
    {
        r.push(data[i]);
        assert(data@.subrange(a as int, i + 1) =~= data@.subrange(a as int, i as int) + seq![
            data@[i as int],
        ]);
        i = i + 1;
    }
    r
}

/// Decodes the frame starting at `pos`, or reports that none starts there.
pub fn parse_frame(data: &Vec<u8>, pos: usize) -> (r: Option<(Frame, usize)>)
    requires
        pos <= data@.len(),
    ensures
        match r {
            Option::Some(fp) => parse_frame_spec(data@, pos as int) == Option::Some(
                (fp.0@, fp.1 as int),
            ) && pos < fp.1 <= data@.len(),
            Option::None => parse_frame_spec(data@, pos as int) is None,
        },
{
    let n = data.len();
    if n - pos < 14 {
        return None;
    }
    let len32: u32 = ((data[pos + 10] as u32) << 24) | ((data[pos + 11] as u32) << 16) | ((data[pos
        + 12] as u32) << 8) | (data[pos + 13] as u32);
    let len = len32 as usize;
    let rem = n - pos - 14;
    if rem < 1 || len > rem - 1 {
        assert(pos + 15 + be32_spec(data@, pos as int + 10) > data@.len());
        return None;
    }
    let lastb = data[pos + 14 + len];
    if lastb > 1 {
        return None;
    }
    let mut payload: Vec<u8> = Vec::new();
    let mut i: usize = 0;
    while i < len
        invariant
            i <= len,
            n == data@.len(),
            pos + 15 + len <= n,
            payload@ == data@.subrange(pos + 14, pos + 14 + i),
        decreases len - i,
    {
        payload.push(data[pos + 14 + i]);
        assert(data@.subrange(pos + 14, pos + 14 + i + 1) =~= data@.subrange(
            pos + 14,
            pos + 14 + i,
        ) + seq![data@[pos + 14 + i]]);
        i = i + 1;
    }
    let channel_id: u64 = ((data[pos] as u64) << 56) | ((data[pos + 1] as u64) << 48) | ((data[pos
        + 2] as u64) << 40) | ((data[pos + 3] as u64) << 32) | ((data[pos + 4] as u64) << 24) | ((
    data[pos + 5] as u64) << 16) | ((data[pos + 6] as u64) << 8) | (data[pos + 7] as u64);
    let number: u16 = ((data[pos + 8] as u16) << 8) | (data[pos + 9] as u16);
    let f = Frame { channel_id, number, data: payload, is_last: lastb == 1 };
    Some((f, pos + 15 + len))
}

/// Decodes every well-formed frame from one L1 block's data-availability
/// bytes, in on-chain order; the bytes from the first malformed frame on are
/// discarded.
pub fn parse_frames(data: &Vec<u8>) -> (frames: Vec<Frame>)
    ensures
        frames.deep_view() == parse_frames_spec(data@, 0),
{
    let mut frames: Vec<Frame> = Vec::new();
    let mut pos: usize = 0;
    assert(frames.deep_view() + parse_frames_spec(data@, 0) =~= parse_frames_spec(data@, 0));
    loop
        invariant_except_break
            pos <= data@.len(),
            parse_frames_spec(data@, 0) == frames.deep_view() + parse_frames_spec(
                data@,
                pos as int,
            ),
        ensures
            frames.deep_view() == parse_frames_spec(data@, 0),
        decreases data@.len() - pos,
    {
        match parse_frame(data, pos) {
            Option::None => {
                assert(frames.deep_view() + parse_frames_spec(data@, pos as int)
                    =~= frames.deep_view());
                break ;
            },
            Option::Some((f, np)) => {
                let ghost old_dv = frames.deep_view();
                frames.push(f);
                assert(frames.deep_view() =~= old_dv + seq![f@]);
                assert(old_dv + (seq![f@] + parse_frames_spec(data@, np as int)) =~= (old_dv + seq![
                    f@,
                ]) + parse_frames_spec(data@, np as int));
                pos = np;
            },
        }
    }
    frames
}

} // verus!
