//! Reading a completed channel: bounded decompression of its payload, then
//! batch decoding.
//!
//! A channel payload travels compressed (zlib). Decompression is bounded by
//! the configured maximum decompressed size; a payload that is not a
//! well-formed stream, or does not fit the bound, is flushed — it yields no
//! batches and the pipeline continues with the next channel.

use vstd::prelude::*;

use crate::batch::{parse_batches, parse_batches_spec};
use crate::types::{Batch, BatchModel};

verus! {

/// What zlib inflation yields for a byte sequence: the decompressed bytes,
/// or nothing when the sequence is not a well-formed zlib stream.
pub uninterp spec fn inflate_zlib(s: Seq<u8>) -> Option<Seq<u8>>;

/// Relies on miniz_oxide::inflate::decompress_to_vec_zlib_with_limit: the
/// result is a function of the input bytes and the limit alone; it is the
/// full decompressed stream when the input is a well-formed zlib stream
/// whose decompressed size fits the limit, and an error otherwise.
#[verifier::external_body]
fn inflate_with_limit(data: &Vec<u8>, limit: usize) -> (r: Option<Vec<u8>>)
    ensures
        match r {
            Option::Some(v) => inflate_zlib(data@) == Option::Some(v@) && v@.len() <= limit,
            Option::None => match inflate_zlib(data@) {
                Option::Some(out) => out.len() > limit,
                Option::None => true,
            },
        },
{
    miniz_oxide::inflate::decompress_to_vec_zlib_with_limit(data.as_slice(), limit).ok()
}

/// The batches one completed channel payload yields: bounded decompression,
/// then batch decoding; a payload that does not decompress within the bound
/// yields nothing.
pub open spec fn channel_batches_spec(payload: Seq<u8>, max: usize, bt: u64) -> Seq<BatchModel> {
    match inflate_zlib(payload) {
        Option::Some(raw) => if raw.len() <= max {
            parse_batches_spec(raw, 0, bt)
        } else {
            Seq::<BatchModel>::empty()
        },
        Option::None => Seq::<BatchModel>::empty(),
    }
}

/// Decodes the batches of one completed channel payload; a payload that is
/// not a zlib stream fitting the configured bound is flushed and yields
/// none.
pub fn read_channel(payload: &Vec<u8>, max: usize, bt: u64) -> (batches: Vec<Batch>)
    ensures
        batches.deep_view() == channel_batches_spec(payload@, max, bt),
{
    match inflate_with_limit(payload, max) {
        Option::None => {
            let empty: Vec<Batch> = Vec::new();
            assert(empty.deep_view() =~= Seq::<BatchModel>::empty());
            empty
        },
        Option::Some(raw) => parse_batches(&raw, bt),
    }
}

} // verus!
