//! The byte-to-text transformation: zlib compression at the best level, then Z85; and
//! back, ignoring ASCII whitespace in the text.

use crate::deflate::{
    written, writer_level, zlib_compressed, zlib_framed, zlib_header_valid, zlib_inflated,
    zlib_read_to_end, ZlibWriter,
};
use crate::z85_text::{
    all_graphic, ascii_chars, char_bytes, lemma_z85_roundtrip, z85_decode, z85_decode_error,
    z85_decoded, z85_encode, z85_encoded,
};
use vstd::prelude::*;

verus! {

/// The zlib compression level used by `compress`: flate2's `Compression::best()`.
pub const COMPRESSION_LEVEL: u32 = 9;

/// Everything that can go wrong while encoding or decoding.
#[derive(Debug)]
#[non_exhaustive]
pub enum Error {
    /// zlib compression failed.
    Compress(std::io::Error),
    /// The input is not Z85 text: wrong length or characters outside the Z85 alphabet.
    Z85(z85::DecodeError),
    /// The input is valid Z85 but does not contain a zlib stream.
    Decompress(std::io::Error),
}

/// The message that describes an error of the kind of `e`.
pub open spec fn error_message(e: Error) -> Seq<char> {
    match e {
        Error::Compress(_) => "failed to compress input"@,
        Error::Z85(_) => "failed to decode z85 (input may be corrupted or not z85 text - did you mean 'encode'?)"@,
        Error::Decompress(_) => "failed to decompress (data may be corrupted)"@,
    }
}

impl From<z85::DecodeError> for Error {
    fn from(error: z85::DecodeError) -> (res: Self) {
        Error::Z85(error)
    }
}

impl vstd::std_specs::convert::FromSpecImpl<z85::DecodeError> for Error {
    open spec fn obeys_from_spec() -> bool {
        true
    }

    open spec fn from_spec(error: z85::DecodeError) -> Self {
        Error::Z85(error)
    }
}

impl Error {
    /// The message that describes this error.
    pub fn to_string(&self) -> (message: String)
        ensures
            message@ == error_message(*self),
    {
        match self {
            Error::Compress(_) => "failed to compress input".to_owned(),
            Error::Z85(_) => "failed to decode z85 (input may be corrupted or not z85 text - did you mean 'encode'?)".to_owned(),
            Error::Decompress(_) => "failed to decompress (data may be corrupted)".to_owned(),
        }
    }
}

/// Whether byte `b` is ASCII whitespace: space, tab, line feed, form feed or carriage
/// return.
pub open spec fn is_ascii_whitespace(b: u8) -> bool {
    b == 0x20 || b == 0x09 || b == 0x0A || b == 0x0C || b == 0x0D
}

/// The bytes of `text` that are not ASCII whitespace, in their order.
pub open spec fn without_whitespace(text: Seq<u8>) -> Seq<u8>
    decreases text.len(),
{
    if text.len() == 0 {
        seq![]
    } else if is_ascii_whitespace(text.last()) {
        without_whitespace(text.drop_last())
    } else {
        without_whitespace(text.drop_last()).push(text.last())
    }
}

/// What `z85::decode` gives for `text` once its whitespace is dropped.
pub open spec fn z85_payload(text: Seq<u8>) -> Option<Seq<u8>> {
    z85_decoded(without_whitespace(text))
}

/// The bytes that `text` stands for: the zlib stream that its Z85 letters write,
/// inflated; `None` where either step fails.
pub open spec fn decoded(text: Seq<u8>) -> Option<Seq<u8>> {
    match z85_payload(text) {
        Some(stream) => zlib_inflated(stream),
        None => None,
    }
}

/// `text` is the Z85 form of a zlib stream that inflates to `data`.
pub open spec fn is_encoding_of(text: Seq<char>, data: Seq<u8>) -> bool {
    exists|stream: Seq<u8>|
        #[trigger] zlib_inflated(stream) == Some(data) && text == ascii_chars(
            z85_encoded(stream),
        )
}

/// Whether `b` is ASCII whitespace.
fn is_whitespace_byte(b: u8) -> (res: bool)
    ensures
        res == is_ascii_whitespace(b),
{
    b == 0x20 || b == 0x09 || b == 0x0A || b == 0x0C || b == 0x0D
}

/// The bytes of `text` without its ASCII whitespace.
fn strip_ascii_whitespace(text: &[u8]) -> (kept: Vec<u8>)
    ensures
        kept@ == without_whitespace(text@),
{
    let mut kept: Vec<u8> = Vec::new();
    let mut i: usize = 0;
    while i < text.len()
        invariant
            i <= text.len(),
            kept@ == without_whitespace(text@.take(i as int)),
        decreases text.len() - i,
    {
        let b: u8 = text[i];
        assert(text@.take(i + 1).drop_last() =~= text@.take(i as int));
        if !is_whitespace_byte(b) {
            kept.push(b);
        }
        i = i + 1;
    }
    assert(text@.take(text.len() as int) =~= text@);
    kept
}

/// Compresses `bytes` into a zlib stream at the highest compression level.
///
/// Always succeeds, with the stream that flate2's zlib encoder writes for `bytes` at
/// level 9 (`Compression::best()`); that stream inflates back to `bytes`, starts with the
/// zlib header `0x78 0xDA` and ends with the Adler-32 checksum of `bytes`.
pub fn compress(bytes: &[u8]) -> (res: Result<Vec<u8>, Error>)
    ensures
        res is Ok,
        res matches Ok(stream) ==> stream@ == zlib_compressed(9, bytes@),
        res matches Ok(stream) ==> zlib_inflated(stream@) == Some(bytes@),
        res matches Ok(stream) ==> zlib_framed(stream@, 9, bytes@),
{
    let mut writer = ZlibWriter::new(COMPRESSION_LEVEL);
    match writer.write_all(bytes) {
        Ok(()) => {},
        Err(e) => {
            return Err(Error::Compress(e));
        },
    }
    assert(written(writer) =~= bytes@);
    assert(writer_level(writer) == COMPRESSION_LEVEL);
    match writer.finish() {
        Ok(stream) => Ok(stream),
        Err(e) => Err(Error::Compress(e)),
    }
}

/// Decompresses a zlib stream produced by `compress`.
///
/// Succeeds exactly where `bytes` starts with a complete, valid zlib stream, with the
/// bytes that it inflates to; otherwise returns `Error::Decompress`, as it does for empty
/// `bytes` and for `bytes` that do not start with a zlib header.
pub fn decompress(bytes: &[u8]) -> (res: Result<Vec<u8>, Error>)
    ensures
        res is Ok <==> zlib_inflated(bytes@) is Some,
        res matches Ok(out) ==> zlib_inflated(bytes@) == Some(out@),
        res matches Err(e) ==> e is Decompress,
        bytes@.len() == 0 ==> res is Err,
        bytes@.len() >= 2 && !zlib_header_valid(bytes@[0], bytes@[1]) ==> res is Err,
{
    let mut out: Vec<u8> = Vec::new();
    match zlib_read_to_end(bytes, &mut out) {
        Ok(_) => {
            assert(out@ =~= zlib_inflated(bytes@)->0);
            Ok(out)
        },
        Err(e) => Err(Error::Decompress(e)),
    }
}

/// Compresses `bytes` and encodes the result as Z85 text.
///
/// Always succeeds. The text is plain ASCII with no whitespace and no trailing newline:
/// the Z85 letters of the stream that `compress` returns, and `decode` gives `bytes`
/// back from it.
pub fn encode(bytes: &[u8]) -> (res: Result<String, Error>)
    ensures
        res is Ok,
        res matches Ok(text) ==> text@ == ascii_chars(
            z85_encoded(zlib_compressed(9, bytes@)),
        ),
        res matches Ok(text) ==> is_encoding_of(text@, bytes@),
        res matches Ok(text) ==> forall|i: int|
            0 <= i < text@.len() ==> '!' <= #[trigger] text@[i] <= '~',
        res matches Ok(text) ==> decoded(char_bytes(text@)) == Some(bytes@),
{
    let stream = match compress(bytes) {
        Ok(stream) => stream,
        Err(e) => {
            return Err(e);
        },
    };
    let text = encode_compressed(stream.as_slice());
    proof {
        assert(zlib_inflated(stream@) == Some(bytes@));
        assert(is_encoding_of(text@, bytes@));
        lemma_decode_inverts_encode(text@, bytes@);
    }
    Ok(text)
}

/// The Z85 text of a zlib stream, such as the one that `compress` returns: the second
/// step of `encode`. Printable ASCII without whitespace.
pub fn encode_compressed(stream: &[u8]) -> (text: String)
    ensures
        text@ == ascii_chars(z85_encoded(stream@)),
        forall|i: int| 0 <= i < text@.len() ==> '!' <= #[trigger] text@[i] <= '~',
{
    let text = z85_encode(stream);
    proof {
        lemma_z85_roundtrip(stream@);
        assert forall|i: int| 0 <= i < text@.len() implies '!' <= #[trigger] text@[i] <= '~' by {
            assert(0x21 <= z85_encoded(stream@)[i] <= 0x7E);
        }
    }
    text
}

/// Whether `text`, once its whitespace is dropped, is short enough for `decode`: at most
/// a fifth of `usize::MAX` bytes, beyond which `z85::decode` overflows in placing an
/// error in a padded last group.
pub open spec fn fits_decode(text: Seq<u8>) -> bool {
    without_whitespace(text).len() <= usize::MAX / 5
}

/// Whether `text` meets what `decode` requires. Texts that do not are longer than any
/// that a 64-bit machine can hold.
pub fn fits_decode_limit(text: &[u8]) -> (fits: bool)
    ensures
        fits == fits_decode(text@),
        fits == (without_whitespace(text@).len() <= usize::MAX / 5),
{
    let mut kept: usize = 0;
    let mut i: usize = 0;
    while i < text.len()
        invariant
            i <= text.len(),
            kept <= i,
            kept == without_whitespace(text@.take(i as int)).len(),
        decreases text.len() - i,
    {
        assert(text@.take(i + 1).drop_last() =~= text@.take(i as int));
        if !is_whitespace_byte(text[i]) {
            kept = kept + 1;
        }
        i = i + 1;
    }
    assert(text@.take(text.len() as int) =~= text@);
    kept <= usize::MAX / 5
}

/// Decodes Z85 `text` and decompresses it back into the bytes that `encode` was given.
///
/// ASCII whitespace anywhere in `text` is ignored. Returns `Error::Z85` exactly where the
/// rest is not Z85 text, with the error that `z85::decode` reports for the rest, and
/// `Error::Decompress` where it is but does not hold a zlib stream.
pub fn decode(text: &[u8]) -> (res: Result<Vec<u8>, Error>)
    requires
        fits_decode(text@),
    ensures
        res is Ok <==> decoded(text@) is Some,
        res matches Ok(out) ==> decoded(text@) == Some(out@),
        res matches Err(e) ==> (e is Z85 <==> z85_payload(text@) is None),
        res matches Err(e) ==> (e is Z85 || e is Decompress),
        res matches Err(Error::Z85(e)) ==> e == z85_decode_error(without_whitespace(text@)),
{
    let z85_text = strip_ascii_whitespace(text);
    let stream = match z85_decode(z85_text.as_slice()) {
        Ok(stream) => stream,
        Err(e) => {
            return Err(Error::from(e));
        },
    };
    decompress(stream.as_slice())
}

/// Text without whitespace keeps all its bytes when whitespace is dropped.
proof fn lemma_no_whitespace_kept(text: Seq<u8>)
    requires
        forall|i: int| 0 <= i < text.len() ==> !is_ascii_whitespace(#[trigger] text[i]),
    ensures
        without_whitespace(text) == text,
    decreases text.len(),
{
    if text.len() > 0 {
        lemma_no_whitespace_kept(text.drop_last());
        assert(without_whitespace(text) =~= text);
    }
}

/// Decoding the bytes of a text that `encode` produced for `data` gives `data` back;
/// the text is ASCII, so its bytes are those of its characters.
pub proof fn lemma_decode_inverts_encode(text: Seq<char>, data: Seq<u8>)
    requires
        is_encoding_of(text, data),
    ensures
        decoded(char_bytes(text)) == Some(data),
        forall|i: int| 0 <= i < text.len() ==> '!' <= #[trigger] text[i] <= '~',
        without_whitespace(char_bytes(text)) == char_bytes(text),
        text.len() <= usize::MAX / 5 ==> fits_decode(char_bytes(text)),
{
    let stream = choose|stream: Seq<u8>|
        #[trigger] zlib_inflated(stream) == Some(data) && text == ascii_chars(
            z85_encoded(stream),
        );
    let cs = z85_encoded(stream);
    lemma_z85_roundtrip(stream);
    assert(char_bytes(text) =~= cs);
    assert forall|i: int| 0 <= i < text.len() implies '!' <= #[trigger] text[i] <= '~' by {
        assert(all_graphic(cs));
        assert(0x21 <= cs[i] <= 0x7E);
    }
    lemma_no_whitespace_kept(cs);
}

/// Dropping the whitespace of two texts put together drops it from each of them.
pub proof fn lemma_without_whitespace_concat(a: Seq<u8>, b: Seq<u8>)
    ensures
        without_whitespace(a + b) == without_whitespace(a) + without_whitespace(b),
    decreases b.len(),
{
    if b.len() == 0 {
        assert(a + b =~= a);
        assert(without_whitespace(a) + without_whitespace(b) =~= without_whitespace(a));
    } else {
        lemma_without_whitespace_concat(a, b.drop_last());
        assert((a + b).drop_last() =~= a + b.drop_last());
        assert((a + b).last() == b.last());
        if is_ascii_whitespace(b.last()) {
        } else {
            assert(without_whitespace(a + b) =~= without_whitespace(a) + without_whitespace(b));
        }
    }
}

/// Whitespace inserted anywhere in a text changes neither what it decodes to nor whether
/// it is Z85 text: line endings, trailing spaces and hard wraps decode as the text
/// without them.
pub proof fn lemma_inserted_whitespace_is_ignored(text: Seq<u8>, at: int, space: u8)
    requires
        0 <= at <= text.len(),
        is_ascii_whitespace(space),
    ensures
        fits_decode(text.take(at).push(space) + text.skip(at)) == fits_decode(text),
        z85_payload(text.take(at).push(space) + text.skip(at)) == z85_payload(text),
        decoded(text.take(at).push(space) + text.skip(at)) == decoded(text),
{
    let before = text.take(at);
    let after = text.skip(at);
    lemma_without_whitespace_concat(before.push(space), after);
    lemma_without_whitespace_concat(before, after);
    assert(before.push(space).drop_last() =~= before);
    assert(before + after =~= text);
}

/// Dropping the whitespace of a text first changes neither what it decodes to nor
/// whether it is Z85 text.
pub proof fn lemma_whitespace_is_ignored(text: Seq<u8>)
    ensures
        z85_payload(without_whitespace(text)) == z85_payload(text),
        decoded(without_whitespace(text)) == decoded(text),
{
    lemma_without_whitespace_idempotent(text);
}

/// Text without whitespace is kept whole by dropping whitespace again.
proof fn lemma_without_whitespace_idempotent(text: Seq<u8>)
    ensures
        without_whitespace(without_whitespace(text)) == without_whitespace(text),
    decreases text.len(),
{
    if text.len() > 0 {
        lemma_without_whitespace_idempotent(text.drop_last());
        let w = without_whitespace(text.drop_last());
        if !is_ascii_whitespace(text.last()) {
            assert(w.push(text.last()).drop_last() =~= w);
        }
    }
}

/// No Z85 letter is ASCII whitespace, so dropping whitespace never drops a letter.
pub proof fn lemma_letters_are_not_whitespace(d: nat)
    requires
        d < 85,
    ensures
        !is_ascii_whitespace(crate::z85_text::letter(d)),
{
    crate::z85_text::lemma_letter(d);
}

/// Texts that are the same once their whitespace is dropped are the same to `decode`: both
/// meet its length bound or neither does, and they decode to the same bytes or fail with
/// the same Z85 error or both at decompression. Whitespace can so be inserted into a text,
/// or taken out of it, anywhere and any number of times.
pub proof fn lemma_same_without_whitespace(text: Seq<u8>, other: Seq<u8>)
    requires
        without_whitespace(text) == without_whitespace(other),
    ensures
        fits_decode(text) == fits_decode(other),
        z85_payload(text) == z85_payload(other),
        decoded(text) == decoded(other),
        z85_decode_error(without_whitespace(text)) == z85_decode_error(without_whitespace(other)),
{
}

/// A text that `encode` produced for `data`, with ASCII whitespace inserted anywhere
/// (line wrapping, CRLF line endings, indentation), still decodes to `data`.
pub proof fn lemma_decode_inverts_encode_with_whitespace(
    text: Seq<char>,
    data: Seq<u8>,
    spaced: Seq<u8>,
)
    requires
        is_encoding_of(text, data),
        without_whitespace(spaced) == char_bytes(text),
    ensures
        decoded(spaced) == Some(data),
{
    lemma_decode_inverts_encode(text, data);
    let cs = char_bytes(text);
    assert forall|i: int| 0 <= i < cs.len() implies !is_ascii_whitespace(#[trigger] cs[i]) by {
        assert('!' <= text[i] <= '~');
    }
    lemma_no_whitespace_kept(cs);
}

/// `decode` takes every text that, without its whitespace, is at most a fifth of
/// `usize::MAX` bytes long: its length bound excludes no other text. On a 64-bit machine
/// that is every text the machine can hold.
pub proof fn lemma_decode_admits_every_text_within_bound(text: Seq<u8>)
    ensures
        fits_decode(text) <==> without_whitespace(text).len() <= usize::MAX / 5,
        text.len() <= usize::MAX / 5 ==> fits_decode(text),
{
    lemma_without_whitespace_shorter(text);
}

/// Dropping whitespace never makes a text longer.
pub proof fn lemma_without_whitespace_shorter(text: Seq<u8>)
    ensures
        without_whitespace(text).len() <= text.len(),
    decreases text.len(),
{
    if text.len() > 0 {
        lemma_without_whitespace_shorter(text.drop_last());
    }
}

/// For every text that `encode` produced for `data` and that is within `decode`'s length
/// bound (any text of at most a fifth of `usize::MAX` characters), `decode` may be called
/// on its bytes and gives exactly `data` back, with no loss and nothing added.
pub proof fn lemma_decode_of_encoded_is_total(text: Seq<char>, data: Seq<u8>)
    requires
        is_encoding_of(text, data),
        text.len() <= usize::MAX / 5,
    ensures
        fits_decode(char_bytes(text)),
        decoded(char_bytes(text)) == Some(data),
        z85_payload(char_bytes(text)) is Some,
{
    lemma_decode_inverts_encode(text, data);
}

/// `decode` may be called on every text that, without its whitespace, is at most a fifth
/// of `usize::MAX` bytes long.
pub proof fn lemma_decode_callable(text: &[u8])
    requires
        without_whitespace(text@).len() <= usize::MAX / 5,
    ensures
        call_requires(decode, (text,)),
{
}

} // verus!
