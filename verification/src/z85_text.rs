//! The Z85 text form of bytes, with the padding of a short last group that the `z85`
//! crate adds to ZeroMQ's Z85: a model of its encoder and decoder, the wrappers that
//! call them, and the proof that decoding gives back what encoding was given.

use crate::radix::{
    all_below, be_bytes, be_value, digits, lemma_bytes_of_value, lemma_digits_shape,
    lemma_power_positive, lemma_value_of_digits, power, value,
};
use vstd::prelude::*;

verus! {

/// The letter `#`, which also marks the padding of a short last group.
pub open spec fn hash_letter() -> u8 {
    0x23
}

/// The letter that stands for digit `i + 62`, for `i` below 23.
pub open spec fn punctuation_letter(i: u8) -> u8 {
    match i {
        0 => 0x2E,
        1 => 0x2D,
        2 => 0x3A,
        3 => 0x2B,
        4 => 0x3D,
        5 => 0x5E,
        6 => 0x21,
        7 => 0x2F,
        8 => 0x2A,
        9 => 0x3F,
        10 => 0x26,
        11 => 0x3C,
        12 => 0x3E,
        13 => 0x28,
        14 => 0x29,
        15 => 0x5B,
        16 => 0x5D,
        17 => 0x7B,
        18 => 0x7D,
        19 => 0x40,
        20 => 0x25,
        21 => 0x24,
        _ => 0x23,
    }
}

/// The Z85 letter for digit `d` (below 85):
/// `0-9a-zA-Z.-:+=^!/*?&<>()[]{}@%$#` in this order.
pub open spec fn letter(d: nat) -> u8 {
    if d < 10 {
        (0x30 + d) as u8
    } else if d < 36 {
        (0x61 + (d - 10)) as u8
    } else if d < 62 {
        (0x41 + (d - 36)) as u8
    } else {
        punctuation_letter((d - 62) as u8)
    }
}

/// The digit that byte `c` stands for, where `c` is a Z85 letter.
pub open spec fn digit_of(c: u8) -> Option<nat> {
    if 0x30 <= c <= 0x39 {
        Some((c - 0x30) as nat)
    } else if 0x61 <= c <= 0x7A {
        Some((c - 0x61 + 10) as nat)
    } else if 0x41 <= c <= 0x5A {
        Some((c - 0x41 + 36) as nat)
    } else {
        match c {
            0x2E => Some(62),
            0x2D => Some(63),
            0x3A => Some(64),
            0x2B => Some(65),
            0x3D => Some(66),
            0x5E => Some(67),
            0x21 => Some(68),
            0x2F => Some(69),
            0x2A => Some(70),
            0x3F => Some(71),
            0x26 => Some(72),
            0x3C => Some(73),
            0x3E => Some(74),
            0x28 => Some(75),
            0x29 => Some(76),
            0x5B => Some(77),
            0x5D => Some(78),
            0x7B => Some(79),
            0x7D => Some(80),
            0x40 => Some(81),
            0x25 => Some(82),
            0x24 => Some(83),
            0x23 => Some(84),
            _ => None,
        }
    }
}

/// The letters for the digits `ds`.
pub open spec fn letters(ds: Seq<nat>) -> Seq<u8> {
    ds.map_values(|d: nat| letter(d))
}

/// The number that the letters `cs` write in base 85, if each of them is a Z85 letter.
pub open spec fn z85_number(cs: Seq<u8>) -> Option<nat>
    decreases cs.len(),
{
    if cs.len() == 0 {
        Some(0)
    } else {
        match (z85_number(cs.drop_last()), digit_of(cs.last())) {
            (Some(v), Some(d)) => Some(v * 85 + d),
            _ => None,
        }
    }
}

/// The five letters for a group of four bytes.
pub open spec fn encode_group(group: Seq<u8>) -> Seq<u8> {
    letters(digits(be_value(group), 85, 5))
}

/// The five letters for a last group of one to three bytes: one `#` for each missing
/// byte, then the lowest digits of the number that the bytes write, one more digit than
/// there are bytes.
pub open spec fn encode_tail(tail: Seq<u8>) -> Seq<u8> {
    Seq::new((4 - tail.len()) as nat, |i: int| hash_letter()) + letters(
        digits(be_value(tail), 85, (tail.len() + 1) as nat),
    )
}

/// What `z85::encode` returns for `data`, as bytes.
pub open spec fn z85_encoded(data: Seq<u8>) -> Seq<u8>
    decreases data.len(),
{
    if data.len() == 0 {
        seq![]
    } else if data.len() < 4 {
        encode_tail(data)
    } else {
        encode_group(data.take(4)) + z85_encoded(data.skip(4))
    }
}

/// The number of `#` letters that `cs` starts with.
pub open spec fn leading_hashes(cs: Seq<u8>) -> nat
    decreases cs.len(),
{
    if cs.len() > 0 && cs[0] == hash_letter() {
        1 + leading_hashes(cs.drop_first())
    } else {
        0
    }
}

/// The four bytes of a group of five letters, if they are Z85 letters that write a
/// number below 2^32.
pub open spec fn decode_group(cs: Seq<u8>) -> Option<Seq<u8>> {
    match z85_number(cs) {
        Some(v) => if v < power(256, 4) {
            Some(be_bytes(v, 4))
        } else {
            None
        },
        None => None,
    }
}

/// The bytes of a padded last group of five letters: `k` leading `#` (at most three)
/// say that the group holds `4 - k` bytes, which the remaining letters write.
pub open spec fn decode_tail(cs: Seq<u8>) -> Option<Seq<u8>> {
    let k = leading_hashes(cs);
    if k > 3 {
        None
    } else {
        match z85_number(cs.skip(k as int)) {
            Some(v) => if v < power(256, (4 - k) as nat) {
                Some(be_bytes(v, (4 - k) as nat))
            } else {
                None
            },
            None => None,
        }
    }
}

/// What `z85::decode` returns for `cs`: `Some` with the bytes where it returns `Ok`,
/// `None` where it returns an error.
pub open spec fn z85_decoded(cs: Seq<u8>) -> Option<Seq<u8>>
    decreases cs.len(),
{
    if cs.len() == 0 {
        Some(seq![])
    } else if cs.len() < 5 {
        None
    } else if cs.len() == 5 && cs[0] == hash_letter() {
        decode_tail(cs)
    } else {
        match (decode_group(cs.take(5)), z85_decoded(cs.skip(5))) {
            (Some(a), Some(b)) => Some(a + b),
            _ => None,
        }
    }
}

/// Every byte of `cs` is a printable ASCII character other than the space.
pub open spec fn all_graphic(cs: Seq<u8>) -> bool {
    forall|i: int| 0 <= i < cs.len() ==> 0x21 <= #[trigger] cs[i] <= 0x7E
}

/// Each letter is a printable ASCII character other than the space, `digit_of` reads it
/// back, and only digit 84 is written `#`.
pub proof fn lemma_letter(d: nat)
    requires
        d < 85,
    ensures
        digit_of(letter(d)) == Some(d),
        0x21 <= letter(d) <= 0x7E,
        letter(d) == hash_letter() <==> d == 84,
{
}

/// The letters for digits below 85 write in base 85 the number that the digits write.
pub proof fn lemma_number_of_letters(ds: Seq<nat>)
    requires
        all_below(ds, 85),
    ensures
        z85_number(letters(ds)) == Some(value(ds, 85)),
    decreases ds.len(),
{
    if ds.len() > 0 {
        let init = ds.drop_last();
        assert(all_below(init, 85));
        lemma_number_of_letters(init);
        lemma_letter(ds.last());
        assert(letters(ds).drop_last() =~= letters(init));
    }
}

/// The number that digits write is at least the first digit times the base to the count
/// of the other digits.
pub proof fn lemma_leading_digit(ds: Seq<nat>, base: nat)
    requires
        ds.len() >= 1,
        base > 0,
    ensures
        ds[0] * power(base, (ds.len() - 1) as nat) <= value(ds, base),
    decreases ds.len(),
{
    if ds.len() == 1 {
        assert(value(ds.drop_last(), base) == 0);
        assert(value(ds, base) == ds[0]) by (nonlinear_arith)
            requires
                value(ds, base) == value(ds.drop_last(), base) * base + ds.last(),
                value(ds.drop_last(), base) == 0,
                ds.last() == ds[0],
        ;
        assert(power(base, 0) == 1);
    } else {
        let init = ds.drop_last();
        lemma_leading_digit(init, base);
        assert(power(base, (ds.len() - 1) as nat) == base * power(base, (init.len() - 1) as nat));
        let p = power(base, (init.len() - 1) as nat);
        let v = value(init, base);
        assert(init[0] == ds[0]);
        assert(ds[0] * (base * p) <= v * base + ds.last()) by (nonlinear_arith)
            requires
                ds[0] * p <= v,
                base > 0,
        ;
        assert(value(ds, base) == v * base + ds.last());
    }
}

/// The powers of 256 and 85 that groups of four bytes and five letters need.
pub proof fn lemma_powers()
    ensures
        power(256, 1) == 256,
        power(256, 2) == 65536,
        power(256, 3) == 16777216,
        power(256, 4) == 4294967296,
        power(85, 2) == 7225,
        power(85, 3) == 614125,
        power(85, 4) == 52200625,
        power(85, 5) == 4437053125,
{
    reveal_with_fuel(power, 6);
}

/// The digits that a number below 85 to the count of digits has in base 85 are below 85,
/// and they write that number back.
proof fn lemma_base85_digits(v: nat, n: nat)
    requires
        v < power(85, n),
    ensures
        digits(v, 85, n).len() == n,
        all_below(digits(v, 85, n), 85),
        value(digits(v, 85, n), 85) == v,
{
    lemma_digits_shape(v, 85, n);
    lemma_value_of_digits(v, 85, n);
    lemma_power_positive(85, n);
    vstd::arithmetic::div_mod::lemma_small_mod(v, power(85, n));
}

/// The letters for digits below 85 are printable ASCII characters other than the space.
proof fn lemma_letters_graphic(ds: Seq<nat>)
    requires
        all_below(ds, 85),
    ensures
        all_graphic(letters(ds)),
{
    assert forall|i: int| 0 <= i < letters(ds).len() implies 0x21 <= #[trigger] letters(ds)[i]
        <= 0x7E by {
        lemma_letter(ds[i]);
    }
}

/// A group of four bytes is written in five printable letters, of which the first is not
/// `#`, and decoding them gives the group back.
pub proof fn lemma_group_roundtrip(group: Seq<u8>)
    requires
        group.len() == 4,
    ensures
        encode_group(group).len() == 5,
        encode_group(group)[0] != hash_letter(),
        all_graphic(encode_group(group)),
        decode_group(encode_group(group)) == Some(group),
{
    let v = be_value(group);
    lemma_bytes_of_value(group);
    lemma_powers();
    let ds = digits(v, 85, 5);
    lemma_base85_digits(v, 5);
    lemma_number_of_letters(ds);
    lemma_letters_graphic(ds);
    lemma_leading_digit(ds, 85);
    assert(ds[0] < 84) by (nonlinear_arith)
        requires
            ds[0] * 52200625 <= v,
            v < 4294967296,
    ;
    lemma_letter(ds[0]);
}

/// A last group of one to three bytes is written in five printable letters, of which the
/// first is `#`, and decoding them gives the group back.
pub proof fn lemma_tail_roundtrip(tail: Seq<u8>)
    requires
        1 <= tail.len() <= 3,
    ensures
        encode_tail(tail).len() == 5,
        encode_tail(tail)[0] == hash_letter(),
        all_graphic(encode_tail(tail)),
        decode_tail(encode_tail(tail)) == Some(tail),
{
    let n = tail.len();
    let v = be_value(tail);
    let pad = (4 - n) as nat;
    let hashes = Seq::new(pad, |i: int| hash_letter());
    let ds = digits(v, 85, (n + 1) as nat);
    let cs = encode_tail(tail);
    lemma_bytes_of_value(tail);
    lemma_powers();
    assert(v < power(85, (n + 1) as nat));
    lemma_base85_digits(v, (n + 1) as nat);
    lemma_number_of_letters(ds);
    lemma_letters_graphic(ds);
    lemma_leading_digit(ds, 85);
    assert(ds[0] < 84) by (nonlinear_arith)
        requires
            n == 1 ==> ds[0] * 85 <= v && v < 256,
            n == 2 ==> ds[0] * 7225 <= v && v < 65536,
            n == 3 ==> ds[0] * 614125 <= v && v < 16777216,
            1 <= n <= 3,
    ;
    lemma_letter(ds[0]);
    lemma_hashes_then(pad, letters(ds));
    assert(cs.skip(pad as int) =~= letters(ds));
    assert(pad == 1 ==> v < power(256, 3));
    assert(pad == 2 ==> v < power(256, 2));
    assert(pad == 3 ==> v < power(256, 1));
}

/// `pad` letters `#` followed by text that does not start with `#` start with exactly
/// `pad` of them.
proof fn lemma_hashes_then(pad: nat, rest: Seq<u8>)
    requires
        rest.len() > 0,
        rest[0] != hash_letter(),
    ensures
        leading_hashes(Seq::new(pad, |i: int| hash_letter()) + rest) == pad,
    decreases pad,
{
    let cs = Seq::new(pad, |i: int| hash_letter()) + rest;
    if pad > 0 {
        lemma_hashes_then((pad - 1) as nat, rest);
        assert(cs.drop_first() =~= Seq::new((pad - 1) as nat, |i: int| hash_letter()) + rest);
    }
}

/// The Z85 text of any bytes is made of printable ASCII characters other than the space,
/// and decoding it gives the bytes back.
pub proof fn lemma_z85_roundtrip(data: Seq<u8>)
    ensures
        all_graphic(z85_encoded(data)),
        z85_decoded(z85_encoded(data)) == Some(data),
    decreases data.len(),
{
    let cs = z85_encoded(data);
    if data.len() == 0 {
    } else if data.len() < 4 {
        lemma_tail_roundtrip(data);
    } else {
        let group = data.take(4);
        let rest = data.skip(4);
        lemma_group_roundtrip(group);
        lemma_z85_roundtrip(rest);
        let eg = encode_group(group);
        let er = z85_encoded(rest);
        assert(cs.take(5) =~= eg);
        assert(cs.skip(5) =~= er);
        assert(group + rest =~= data);
        assert(all_graphic(cs)) by {
            assert forall|i: int| 0 <= i < cs.len() implies 0x21 <= #[trigger] cs[i] <= 0x7E by {
                if i < 5 {
                    assert(cs[i] == eg[i]);
                } else {
                    assert(cs[i] == er[i - 5]);
                }
            }
        }
    }
}

#[verifier::external_type_specification]
pub struct ExDecodeError(z85::DecodeError);

/// The position of the first byte of `cs` that is not a Z85 letter; the length of `cs`
/// where every byte is one.
pub open spec fn first_non_letter(cs: Seq<u8>) -> nat
    decreases cs.len(),
{
    if cs.len() == 0 || digit_of(cs[0]) is None {
        0
    } else {
        1 + first_non_letter(cs.drop_first())
    }
}

/// The error that `z85::decode` reports for a group of five letters `cs` that does not
/// decode, where the group starts at position `at` of the text: the first byte that is
/// not a letter, or else the group itself, whose number is above 2^32.
pub open spec fn group_error(cs: Seq<u8>, at: nat) -> z85::DecodeError {
    let i = first_non_letter(cs);
    if i < cs.len() {
        z85::DecodeError::InvalidByte((at + i) as usize, cs[i as int])
    } else {
        z85::DecodeError::InvalidChunk(at as usize)
    }
}

/// The error that `z85::decode` reports for a padded last group `cs` that does not
/// decode, in a text of `text_len` letters: more than three `#`, or the first byte after
/// the `#` that is not a letter (at a position the crate counts as its index after the
/// `#` plus five times the start of the group), or else a number too large for the
/// bytes that the group holds.
pub open spec fn tail_error(cs: Seq<u8>, text_len: nat) -> z85::DecodeError {
    let k = leading_hashes(cs);
    let rest = cs.skip(k as int);
    let i = first_non_letter(rest);
    if k <= 3 && i < rest.len() {
        z85::DecodeError::InvalidByte((i + (text_len - 5) * 5) as usize, rest[i as int])
    } else {
        z85::DecodeError::InvalidTail
    }
}

/// The error for the letters `cs` that follow `done` groups that decoded, in a text of
/// `text_len` letters that does not decode: that of the first group that does not.
pub open spec fn error_after(cs: Seq<u8>, done: nat, text_len: nat) -> z85::DecodeError
    decreases cs.len(),
{
    if cs.len() < 5 {
        z85::DecodeError::InvalidTail
    } else if cs.len() == 5 && cs[0] == hash_letter() {
        tail_error(cs, text_len)
    } else if decode_group(cs.take(5)) is None {
        group_error(cs.take(5), done * 5)
    } else {
        error_after(cs.skip(5), done + 1, text_len)
    }
}

/// The error that `z85::decode` returns for `cs`, where `z85_decoded(cs)` is `None`.
pub open spec fn z85_decode_error(cs: Seq<u8>) -> z85::DecodeError {
    if cs.len() % 5 != 0 {
        z85::DecodeError::InvalidLength(cs.len() as usize)
    } else {
        error_after(cs, 0, cs.len())
    }
}

/// The characters of the bytes `bs`, each taken as a code point.
pub open spec fn ascii_chars(bs: Seq<u8>) -> Seq<char> {
    bs.map_values(|b: u8| b as char)
}

/// The bytes of the characters `cs`, each taken at its code point.
pub open spec fn char_bytes(cs: Seq<char>) -> Seq<u8> {
    cs.map_values(|c: char| c as u8)
}

/// Calls `z85::encode`. Claimed: the text is, character for byte, `z85_encoded(data@)`.
#[verifier::external_body]
pub(crate) fn z85_encode(data: &[u8]) -> (text: String)
    ensures
        text@ == ascii_chars(z85_encoded(data@)),
{
    z85::encode(data)
}

/// Calls `z85::decode`. Claimed: it succeeds exactly where `z85_decoded(text@)` is
/// `Some`, and then returns those bytes; otherwise it returns `z85_decode_error(text@)`.
/// The crate multiplies the start of a padded last group by five to place an error in
/// it, which overflows (a panic in debug builds) for texts longer than a fifth of
/// `usize::MAX`; those are left out.
#[verifier::external_body]
pub(crate) fn z85_decode(text: &[u8]) -> (res: Result<Vec<u8>, z85::DecodeError>)
    requires
        text.len() <= usize::MAX / 5,
    ensures
        res is Ok <==> z85_decoded(text@) is Some,
        res matches Ok(data) ==> z85_decoded(text@) == Some(data@),
        res matches Err(e) ==> e == z85_decode_error(text@),
{
    z85::decode(text)
}

} // verus!
