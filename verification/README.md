# byteme

Compresses any bytes with zlib and encodes them as Z85 text, and back: a Verus library
with a small command line front end.

- `src/radix.rs`: digits of a number in a base and the number that digits write, with the
  lemmas that relate them.
- `src/z85_text.rs`: the Z85 text form (with the `z85` crate's padding of a short last
  group), the wrappers around `z85::encode` and `z85::decode`, and the proof that
  decoding gives back what encoding was given.
- `src/deflate.rs`: the wrappers around `flate2`'s zlib encoder and decoder.
- `src/codec.rs`: `compress`, `decompress`, `encode`, `encode_compressed`, `decode`,
  `fits_decode_limit` and
  `Error`, with the laws: decoding inverts encoding, and whitespace in the text is
  ignored.
- `app/main.rs`: argument parsing, file and stdin/stdout handling.
