//! Holds the `z85` crate to the model of its encoder and decoder that the library's
//! contracts state (`z85_encoded`, `z85_decoded`, `z85_decode_error`), written out here
//! in plain Rust clause for clause and compared on many inputs.

fn letter(d: u128) -> u8 {
    const PUNCTUATION: &[u8] = b".-:+=^!/*?&<>()[]{}@%$#";
    if d < 10 {
        (0x30 + d) as u8
    } else if d < 36 {
        (0x61 + (d - 10)) as u8
    } else if d < 62 {
        (0x41 + (d - 36)) as u8
    } else {
        PUNCTUATION[(d - 62) as usize]
    }
}

fn digit_of(c: u8) -> Option<u128> {
    (0..85).find(|&d| letter(d) == c)
}

fn z85_number(cs: &[u8]) -> Option<u128> {
    match cs.split_last() {
        None => Some(0),
        Some((&last, init)) => Some(z85_number(init)? * 85 + digit_of(last)?),
    }
}

fn be_value(bs: &[u8]) -> u128 {
    bs.iter().fold(0, |v, &b| v * 256 + b as u128)
}

fn digits(v: u128, base: u128, n: u32) -> Vec<u128> {
    if n == 0 {
        Vec::new()
    } else {
        let mut ds = digits(v / base, base, n - 1);
        ds.push(v % base);
        ds
    }
}

fn be_bytes(v: u128, n: u32) -> Vec<u8> {
    digits(v, 256, n).into_iter().map(|d| d as u8).collect()
}

fn encode_group(group: &[u8]) -> Vec<u8> {
    digits(be_value(group), 85, 5).into_iter().map(letter).collect()
}

fn encode_tail(tail: &[u8]) -> Vec<u8> {
    let mut out = vec![b'#'; 4 - tail.len()];
    out.extend(digits(be_value(tail), 85, tail.len() as u32 + 1).into_iter().map(letter));
    out
}

fn z85_encoded(data: &[u8]) -> Vec<u8> {
    if data.is_empty() {
        Vec::new()
    } else if data.len() < 4 {
        encode_tail(data)
    } else {
        let mut out = encode_group(&data[..4]);
        out.extend(z85_encoded(&data[4..]));
        out
    }
}

fn leading_hashes(cs: &[u8]) -> usize {
    cs.iter().take_while(|&&c| c == b'#').count()
}

fn decode_group(cs: &[u8]) -> Option<Vec<u8>> {
    let v = z85_number(cs)?;
    if v < 1 << 32 { Some(be_bytes(v, 4)) } else { None }
}

fn decode_tail(cs: &[u8]) -> Option<Vec<u8>> {
    let k = leading_hashes(cs);
    if k > 3 {
        return None;
    }
    let v = z85_number(&cs[k..])?;
    if v < 1u128 << (8 * (4 - k)) { Some(be_bytes(v, 4 - k as u32)) } else { None }
}

fn z85_decoded(cs: &[u8]) -> Option<Vec<u8>> {
    if cs.is_empty() {
        Some(Vec::new())
    } else if cs.len() < 5 {
        None
    } else if cs.len() == 5 && cs[0] == b'#' {
        decode_tail(cs)
    } else {
        let mut out = decode_group(&cs[..5])?;
        out.extend(z85_decoded(&cs[5..])?);
        Some(out)
    }
}

fn first_non_letter(cs: &[u8]) -> usize {
    cs.iter().take_while(|&&c| digit_of(c).is_some()).count()
}

fn group_error(cs: &[u8], at: usize) -> z85::DecodeError {
    let i = first_non_letter(cs);
    if i < cs.len() {
        z85::DecodeError::InvalidByte(at + i, cs[i])
    } else {
        z85::DecodeError::InvalidChunk(at)
    }
}

fn tail_error(cs: &[u8], text_len: usize) -> z85::DecodeError {
    let k = leading_hashes(cs);
    let rest = &cs[k.min(cs.len())..];
    let i = first_non_letter(rest);
    if k <= 3 && i < rest.len() {
        z85::DecodeError::InvalidByte(i + (text_len - 5) * 5, rest[i])
    } else {
        z85::DecodeError::InvalidTail
    }
}

fn error_after(cs: &[u8], done: usize, text_len: usize) -> z85::DecodeError {
    if cs.len() < 5 {
        z85::DecodeError::InvalidTail
    } else if cs.len() == 5 && cs[0] == b'#' {
        tail_error(cs, text_len)
    } else if decode_group(&cs[..5]).is_none() {
        group_error(&cs[..5], done * 5)
    } else {
        error_after(&cs[5..], done + 1, text_len)
    }
}

fn z85_result(cs: &[u8]) -> Result<Vec<u8>, z85::DecodeError> {
    match z85_decoded(cs) {
        Some(data) => Ok(data),
        None if cs.len() % 5 != 0 => Err(z85::DecodeError::InvalidLength(cs.len())),
        None => Err(error_after(cs, 0, cs.len())),
    }
}

struct Lcg(u64);

impl Lcg {
    fn next(&mut self) -> u64 {
        self.0 = self.0.wrapping_mul(6364136223846793005).wrapping_add(1442695040888963407);
        self.0 >> 33
    }
}

#[test]
fn model_letters_are_the_crate_alphabet() {
    let alphabet: Vec<u8> = (0..85).map(letter).collect();
    assert_eq!(
        alphabet,
        b"0123456789abcdefghijklmnopqrstuvwxyzABCDEFGHIJKLMNOPQRSTUVWXYZ.-:+=^!/*?&<>()[]{}@%$#"
    );
}

#[test]
fn model_encoder_agrees_with_the_crate() {
    let mut rng = Lcg(7);
    for len in 0..=14 {
        for _ in 0..400 {
            let data: Vec<u8> = (0..len)
                .map(|_| match rng.next() % 4 {
                    0 => 0,
                    1 => 255,
                    _ => rng.next() as u8,
                })
                .collect();
            assert_eq!(z85::encode(&data).into_bytes(), z85_encoded(&data), "{data:?}");
        }
    }
}

#[test]
fn model_decoder_agrees_with_the_crate_on_every_group_over_a_small_alphabet() {
    let pool: &[u8] = b"#0%$9aZ@\x00 ~\"\x7f\xc3";
    let n = pool.len();
    let mut text = [0u8; 5];
    for code in 0..n.pow(5) {
        let mut rest = code;
        for slot in text.iter_mut() {
            *slot = pool[rest % n];
            rest /= n;
        }
        assert_eq!(z85::decode(text), z85_result(&text), "{text:?}");
    }
}

#[test]
fn model_decoder_agrees_with_the_crate_on_random_text() {
    let pool: &[u8] = b"#0%$9aZ@ \x00~#####";
    let mut rng = Lcg(11);
    for len in 0..=21 {
        for _ in 0..3000 {
            let text: Vec<u8> = (0..len)
                .map(|_| if rng.next() % 8 == 0 {
                    rng.next() as u8
                } else {
                    pool[(rng.next() as usize) % pool.len()]
                })
                .collect();
            assert_eq!(z85::decode(&text), z85_result(&text), "{text:?}");
        }
    }
}

#[test]
fn model_decoder_reads_back_the_crate_encoder() {
    let mut rng = Lcg(3);
    for len in 0..=14 {
        for _ in 0..200 {
            let data: Vec<u8> = (0..len).map(|_| rng.next() as u8).collect();
            let text = z85::encode(&data);
            assert_eq!(z85_decoded(text.as_bytes()), Some(data.clone()));
            assert_eq!(z85::decode(&text).unwrap(), data);
        }
    }
}
