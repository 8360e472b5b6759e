//! zlib streams, made and read by the `flate2` crate.

use flate2::read::ZlibDecoder;
use flate2::write::ZlibEncoder;
use std::io::{Read, Write};
use crate::radix::be_bytes;
use vstd::prelude::*;

verus! {

#[verifier::external_type_specification]
#[verifier::external_body]
pub struct ExIoError(std::io::Error);

/// A `flate2::write::ZlibEncoder` that writes its stream into a `Vec`. The encoder type
/// cannot be declared here on its own, since its declaration carries the bound
/// `std::io::Write`; it stands in a private field of this opaque struct, and the names
/// below say what the contracts need of it.
#[verifier::external_body]
pub struct ZlibWriter {
    encoder: ZlibEncoder<Vec<u8>>,
}

/// The bytes that have been written into `writer` since it was made.
pub uninterp spec fn written(writer: ZlibWriter) -> Seq<u8>;

/// The compression level that `writer` was made with.
pub uninterp spec fn writer_level(writer: ZlibWriter) -> u32;

/// The zlib stream that a `flate2::write::ZlibEncoder` made at compression level `level`
/// writes into its `Vec` for `data` when `data` is all that is written into it, with no
/// flush in between, before it is finished.
pub uninterp spec fn zlib_compressed(level: u32, data: Seq<u8>) -> Seq<u8>;

/// What `flate2::read::ZlibDecoder` reads to the end out of `stream`: `Some` with the
/// bytes, or `None` where reading fails because `stream` does not start with a complete,
/// valid zlib stream (bytes after a complete stream are left unread).
pub uninterp spec fn zlib_inflated(stream: Seq<u8>) -> Option<Seq<u8>>;

/// The two Adler-32 sums of `data`: one plus the sum of its bytes, and the sum of the
/// first sum after each byte, both modulo 65521.
pub open spec fn adler32_sums(data: Seq<u8>) -> (nat, nat)
    decreases data.len(),
{
    if data.len() == 0 {
        (1, 0)
    } else {
        let (a, b) = adler32_sums(data.drop_last());
        let a2 = ((a + data.last()) % 65521) as nat;
        (a2, ((b + a2) % 65521) as nat)
    }
}

/// The Adler-32 checksum of `data`: the second sum times 65536 plus the first.
pub open spec fn adler32(data: Seq<u8>) -> nat {
    adler32_sums(data).1 * 65536 + adler32_sums(data).0
}

/// The second byte (FLG) of the zlib header that flate2's miniz_oxide backend writes at
/// compression level `level`: its level field (0 for levels 0 and 1, 1 for 2 and 3, 2
/// for 4 to 8, 3 above), and the check bits that make the header a multiple of 31.
pub open spec fn zlib_flag_byte(level: u32) -> u8 {
    if level <= 1 {
        0x01
    } else if level <= 3 {
        0x5E
    } else if level <= 8 {
        0x9C
    } else {
        0xDA
    }
}

/// `stream` has the frame that a flate2 zlib encoder at `level` puts around `data`: the
/// header `0x78` (deflate, 32 KiB window) and `zlib_flag_byte(level)`, and at its end the
/// Adler-32 checksum of `data`, the most significant byte first.
pub open spec fn zlib_framed(stream: Seq<u8>, level: u32, data: Seq<u8>) -> bool {
    &&& stream.len() >= 6
    &&& stream[0] == 0x78
    &&& stream[1] == zlib_flag_byte(level)
    &&& stream.subrange(stream.len() - 4, stream.len() as int) == be_bytes(adler32(data), 4)
}

/// Whether `cmf` and `flg` form a zlib header that miniz_oxide's decoder takes: a multiple
/// of 31, no preset dictionary, the deflate method and a window of at most 32 KiB.
pub open spec fn zlib_header_valid(cmf: u8, flg: u8) -> bool {
    &&& (cmf * 256 + flg) % 31 == 0
    &&& (flg / 32) % 2 == 0
    &&& cmf % 16 == 8
    &&& cmf / 16 <= 7
}

/// The header that a flate2 zlib encoder writes is one that its decoder takes.
pub proof fn lemma_written_header_valid(level: u32)
    ensures
        zlib_header_valid(0x78, zlib_flag_byte(level)),
{
}

impl ZlibWriter {
    /// Calls `flate2::write::ZlibEncoder::new` with an empty `Vec` to write into and
    /// `flate2::Compression::new(level)`. flate2's miniz_oxide backend asserts (in debug
    /// builds) that the level is at most 10. Claimed: nothing has been written into the
    /// new encoder yet, and it keeps `level`.
    #[verifier::external_body]
    pub(crate) fn new(level: u32) -> (writer: ZlibWriter)
        requires
            level <= 10,
        ensures
            written(writer) == Seq::<u8>::empty(),
            writer_level(writer) == level,
    {
        ZlibWriter { encoder: ZlibEncoder::new(Vec::new(), flate2::Compression::new(level)) }
    }

    /// Calls `write_all` of `std::io::Write` on the encoder. Claimed: it succeeds (the
    /// encoder writes into a `Vec`, which takes every write, and miniz_oxide raises no
    /// error on flate2's calls), the level stays, and `bytes` follow what had been written
    /// before.
    #[verifier::external_body]
    pub(crate) fn write_all(&mut self, bytes: &[u8]) -> (res: Result<(), std::io::Error>)
        ensures
            res is Ok,
            writer_level(*final(self)) == writer_level(*old(self)),
            written(*final(self)) == written(*old(self)) + bytes@,
    {
        self.encoder.write_all(bytes)
    }

    /// Calls `flate2::write::ZlibEncoder::finish`. Claimed: it succeeds, for the reasons
    /// that `write_all` does, and returns the stream `zlib_compressed` names for the
    /// encoder's level and the bytes written into it, a stream that inflates back to
    /// exactly those bytes and has the zlib header for the level and the Adler-32
    /// checksum of those bytes at its end.
    #[verifier::external_body]
    pub(crate) fn finish(self) -> (res: Result<Vec<u8>, std::io::Error>)
        ensures
            res is Ok,
            res matches Ok(stream) ==> stream@ == zlib_compressed(
                writer_level(self),
                written(self),
            ),
            res matches Ok(stream) ==> zlib_inflated(stream@) == Some(written(self)),
            res matches Ok(stream) ==> zlib_framed(stream@, writer_level(self), written(self)),
    {
        self.encoder.finish()
    }
}

/// Reads a `flate2::read::ZlibDecoder` made over `stream` to its end with `read_to_end`
/// of `std::io::Read`, appending to `out`. Claimed: it succeeds exactly where
/// `zlib_inflated(stream@)` is `Some`, and then appends those bytes and returns their
/// count; it fails on an empty stream ("incomplete deflate stream") and on a stream whose
/// first two bytes are not a header that the decoder takes ("corrupt deflate stream").
/// Left unsaid: what is appended when it fails.
#[verifier::external_body]
pub(crate) fn zlib_read_to_end(stream: &[u8], out: &mut Vec<u8>) -> (res: Result<
    usize,
    std::io::Error,
>)
    ensures
        res is Ok <==> zlib_inflated(stream@) is Some,
        stream@.len() == 0 ==> res is Err,
        stream@.len() >= 2 && !zlib_header_valid(stream@[0], stream@[1]) ==> res is Err,
        res matches Ok(n) ==> final(out)@ == old(out)@ + zlib_inflated(stream@)->0 && n
            == zlib_inflated(stream@)->0.len(),
{
    ZlibDecoder::new(stream).read_to_end(out)
}

} // verus!
