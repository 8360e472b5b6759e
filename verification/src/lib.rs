//! Compress any bytes with zlib and encode them as Z85 text, and back.

pub mod codec;
pub mod deflate;
pub mod radix;
pub mod z85_text;

pub use codec::{compress, decode, decompress, encode, encode_compressed, fits_decode_limit, Error};
