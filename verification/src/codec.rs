//! The compression codec boundary: zlib compression of a whole segment and
//! the decoded-byte accounting of its compressed prefixes.
//!
//! Both operations are carried out by `flate2`; this module states what the
//! engine relies on and gives the results their names.

use vstd::prelude::*;

verus! {

/// The zlib stream that compressing `data` at the highest compression level
/// produces.
pub uninterp spec fn zlib_deflate(data: Seq<u8>) -> Seq<u8>;

/// The bytes a zlib decoder has emitted once it has consumed `stream` (a
/// prefix of a zlib stream).
pub uninterp spec fn zlib_inflate(stream: Seq<u8>) -> Seq<u8>;

/// How many bytes a zlib decoder has emitted once it has consumed `stream`.
pub open spec fn zlib_decoded_len(stream: Seq<u8>) -> nat {
    zlib_inflate(stream).len()
}

/// Compresses a whole buffer into one zlib stream.
///
/// Relies on `flate2::write::ZlibEncoder` (with `Compression::best`) writing
/// into a `Vec`: the stream produced is a function of the input bytes alone;
/// a zlib decoder fed the whole stream emits exactly the input again, emits
/// nothing while it has consumed nothing, and emits no more than the input
/// while consuming any prefix of the stream.  Compressing into a `Vec` cannot
/// fail: the sink never errors, and the compressor reaches no error state on
/// plain byte input.
#[verifier::external_body]
pub(crate) fn zlib_compress(data: &Vec<u8>) -> (r: Vec<u8>)
    ensures
        r@ == zlib_deflate(data@),
        zlib_inflate(r@) == data@,
        zlib_inflate(r@.take(0)) == Seq::<u8>::empty(),
        forall|j: int| 0 <= j <= r@.len() ==> zlib_decoded_len(r@.take(j)) <= data@.len(),
{
    let mut encoder = flate2::write::ZlibEncoder::new(Vec::new(), flate2::Compression::best());
    std::io::Write::write_all(&mut encoder, data.as_slice())
        .expect("writing to a Vec-backed compressor cannot fail");
    encoder.finish().expect("finishing a Vec-backed compressor cannot fail")
}

/// Reports how many bytes the device-side decoder will have emitted once it
/// has consumed the first `upto` bytes of `stream`, a stream the compressor
/// produced.
///
/// Relies on `flate2::write::ZlibDecoder` writing into a `Vec`: after a prefix
/// of a zlib stream has been written and flushed, the sink holds exactly the
/// bytes decoded so far — a function of the prefix alone, and never fewer
/// bytes than any shorter prefix yields.  Every prefix of a stream the
/// compressor produced decodes without error, and the `Vec` sink never errors.
#[verifier::external_body]
pub(crate) fn zlib_decoded_prefix_len(stream: &Vec<u8>, upto: usize) -> (r: usize)
    requires
        upto <= stream@.len(),
        exists|d: Seq<u8>| stream@ == zlib_deflate(d),
    ensures
        r == zlib_decoded_len(stream@.take(upto as int)),
        forall|j: int| 0 <= j <= upto ==> zlib_decoded_len(stream@.take(j)) <= r,
{
    let mut decoder = flate2::write::ZlibDecoder::new(Vec::new());
    std::io::Write::write_all(&mut decoder, &stream[..upto])
        .expect("a prefix of a compressor-produced stream decodes without error");
    std::io::Write::flush(&mut decoder).expect("flushing a Vec-backed decoder cannot fail");
    decoder.get_ref().len()
}

} // verus!
