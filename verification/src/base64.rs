//! Base64 with the standard alphabet and padding, as the shell tool
//! `base64` reads and writes it.
//!
//! Encoding turns every three bytes into four letters and pads the last
//! group with `=`. Decoding skips every byte that is not a letter of the
//! alphabet (padding, line breaks and anything else), takes six bits from
//! each letter and gives out every full byte; bits that do not fill a byte
//! are dropped.

use vstd::prelude::*;

verus! {

/// The padding letter.
pub const PAD: char = '=';

/// The letter for the six bits `v`: `A` to `Z`, `a` to `z`, `0` to `9`, `+`
/// and `/`.
pub open spec fn letter(v: u8) -> char {
    if v < 26 {
        (0x41 + v) as char
    } else if v < 52 {
        (0x61 + (v - 26)) as char
    } else if v < 62 {
        (0x30 + (v - 52)) as char
    } else if v == 62 {
        '+'
    } else {
        '/'
    }
}

/// The six bits that the byte `b` stands for, if it is a letter of the
/// alphabet.
pub open spec fn sextet_of(b: u8) -> Option<u8> {
    if 0x41 <= b <= 0x5a {
        Some((b - 0x41) as u8)
    } else if 0x61 <= b <= 0x7a {
        Some((b - 0x61 + 26) as u8)
    } else if 0x30 <= b <= 0x39 {
        Some((b - 0x30 + 52) as u8)
    } else if b == 0x2b {
        Some(62u8)
    } else if b == 0x2f {
        Some(63u8)
    } else {
        None
    }
}

/// The four letters for a group of one, two or three bytes.
pub open spec fn group(data: Seq<u8>) -> Seq<char> {
    let b0 = data[0];
    if data.len() == 1 {
        seq![letter(b0 >> 2), letter((b0 & 3) << 4), PAD, PAD]
    } else if data.len() == 2 {
        let b1 = data[1];
        seq![letter(b0 >> 2), letter(((b0 & 3) << 4) | (b1 >> 4)), letter((b1 & 15) << 2), PAD]
    } else {
        let b1 = data[1];
        let b2 = data[2];
        seq![
            letter(b0 >> 2),
            letter(((b0 & 3) << 4) | (b1 >> 4)),
            letter(((b1 & 15) << 2) | (b2 >> 6)),
            letter(b2 & 63),
        ]
    }
}

/// The base64 text of `data`.
pub open spec fn encoded(data: Seq<u8>) -> Seq<char>
    decreases data.len(),
{
    if data.len() == 0 {
        Seq::empty()
    } else if data.len() <= 3 {
        group(data)
    } else {
        group(data.take(3)) + encoded(data.skip(3))
    }
}

/// The state of a decoder: the bits that do not fill a byte yet (`bits` of
/// them, as the number `carry`) and the bytes given out so far.
pub struct DecodeState {
    pub carry: u32,
    pub bits: u32,
    pub out: Seq<u8>,
}

/// The state before anything is read.
pub open spec fn start() -> DecodeState {
    DecodeState { carry: 0, bits: 0, out: Seq::empty() }
}

/// The carry holds as many bits as the state says, and fewer than eight.
pub open spec fn state_wf(s: DecodeState) -> bool {
    ||| s.bits == 0 && s.carry == 0
    ||| s.bits == 2 && s.carry < 4
    ||| s.bits == 4 && s.carry < 16
    ||| s.bits == 6 && s.carry < 64
}

/// The state after the byte `b`: a letter adds its six bits, and a full
/// byte is given out as soon as there is one; any other byte is skipped.
pub open spec fn step(s: DecodeState, b: u8) -> DecodeState {
    match sextet_of(b) {
        Some(v) => {
            let buffer = (s.carry << 6) | (v as u32);
            if s.bits >= 2 {
                let left = (s.bits - 2) as u32;
                DecodeState {
                    carry: buffer & (((1u32 << left) - 1) as u32),
                    bits: left,
                    out: s.out.push((buffer >> left) as u8),
                }
            } else {
                DecodeState { carry: buffer, bits: (s.bits + 6) as u32, out: s.out }
            }
        },
        None => s,
    }
}

/// The state after each byte of `input` in turn.
pub open spec fn run(s: DecodeState, input: Seq<u8>) -> DecodeState
    decreases input.len(),
{
    if input.len() == 0 {
        s
    } else {
        step(run(s, input.drop_last()), input.last())
    }
}

/// The bytes that `input` decodes to.
pub open spec fn decoded(input: Seq<u8>) -> Seq<u8> {
    run(start(), input).out
}

/// The bytes of a text of ASCII letters.
pub open spec fn ascii_bytes(text: Seq<char>) -> Seq<u8> {
    text.map_values(|c: char| c as u8)
}

/// Every letter stands for the six bits that it was chosen for, and the
/// padding letter stands for none.
pub proof fn lemma_letter_sextet(v: u8)
    requires
        v < 64,
    ensures
        sextet_of(letter(v) as u8) == Some(v),
        sextet_of(PAD as u8) is None,
{
}

/// Decoding one part of the input after another is decoding the whole.
pub proof fn lemma_run_concat(s: DecodeState, a: Seq<u8>, b: Seq<u8>)
    ensures
        run(s, a + b) == run(run(s, a), b),
    decreases b.len(),
{
    if b.len() == 0 {
        assert(a + b =~= a);
    } else {
        assert((a + b).drop_last() =~= a + b.drop_last());
        lemma_run_concat(s, a, b.drop_last());
    }
}

/// The state after four bytes.
proof fn lemma_run_four(s: DecodeState, a: u8, b: u8, c: u8, d: u8)
    ensures
        run(s, seq![a, b, c, d]) == step(step(step(step(s, a), b), c), d),
{
    let four = seq![a, b, c, d];
    let three = seq![a, b, c];
    let two = seq![a, b];
    let one = seq![a];
    assert(four.drop_last() =~= three);
    assert(three.drop_last() =~= two);
    assert(two.drop_last() =~= one);
    assert(one.drop_last() =~= Seq::<u8>::empty());
    assert(run(s, Seq::<u8>::empty()) == s);
    assert(run(s, one) == step(run(s, one.drop_last()), one.last()));
    assert(run(s, one) == step(s, a));
    assert(run(s, two) == step(run(s, one), b));
    assert(run(s, three) == step(run(s, two), c));
}

/// The letters of a group decode to the bytes of the group, and leave no
/// bits over that count.
pub proof fn lemma_group_round_trip(s: DecodeState, data: Seq<u8>)
    requires
        s.bits == 0,
        s.carry == 0,
        1 <= data.len() <= 3,
    ensures
        run(s, ascii_bytes(group(data))).out == s.out + data,
        data.len() == 3 ==> run(s, ascii_bytes(group(data))).bits == 0 && run(
            s,
            ascii_bytes(group(data)),
        ).carry == 0,
{
    let letters = group(data);
    let input = ascii_bytes(letters);
    assert(input =~= seq![
        letters[0] as u8,
        letters[1] as u8,
        letters[2] as u8,
        letters[3] as u8,
    ]);
    lemma_run_four(s, input[0], input[1], input[2], input[3]);
    let b0 = data[0];
    let v0: u8 = b0 >> 2;
    assert(v0 < 64 && (0u32 << 6) | (v0 as u32) == v0 as u32) by (bit_vector)
        requires
            v0 == b0 >> 2,
    ;
    lemma_letter_sextet(v0);
    let s1 = step(s, input[0]);
    assert(s1 == DecodeState { carry: v0 as u32, bits: 6, out: s.out });
    if data.len() == 1 {
        let v1: u8 = (b0 & 3) << 4;
        assert(v1 < 64 && (((v0 as u32) << 6) | (v1 as u32)) >> 4u32 == b0 as u32 && ((((v0 as u32)
            << 6) | (v1 as u32)) & (((1u32 << 4u32) - 1) as u32)) == 0) by (bit_vector)
            requires
                v0 == b0 >> 2,
                v1 == (b0 & 3) << 4,
        ;
        lemma_letter_sextet(v1);
        let s2 = step(s1, input[1]);
        assert(s2.out == s.out.push(b0));
        assert(s.out.push(b0) =~= s.out + data);
    } else if data.len() == 2 {
        let b1 = data[1];
        let v1: u8 = ((b0 & 3) << 4) | (b1 >> 4);
        let v2: u8 = (b1 & 15) << 2;
        assert(v1 < 64 && (((v0 as u32) << 6) | (v1 as u32)) >> 4u32 == b0 as u32 && ((((v0 as u32)
            << 6) | (v1 as u32)) & (((1u32 << 4u32) - 1) as u32)) == (b1 >> 4) as u32)
            by (bit_vector)
            requires
                v0 == b0 >> 2,
                v1 == ((b0 & 3) << 4) | (b1 >> 4),
        ;
        lemma_letter_sextet(v1);
        let s2 = step(s1, input[1]);
        assert(s2 == DecodeState { carry: (b1 >> 4) as u32, bits: 4, out: s.out.push(b0) });
        let c2: u32 = (b1 >> 4) as u32;
        assert(v2 < 64 && ((c2 << 6) | (v2 as u32)) >> 2u32 == b1 as u32) by (bit_vector)
            requires
                c2 == (b1 >> 4) as u32,
                v2 == (b1 & 15) << 2,
        ;
        lemma_letter_sextet(v2);
        let s3 = step(s2, input[2]);
        assert(s3.out == s.out.push(b0).push(b1));
        assert(s.out.push(b0).push(b1) =~= s.out + data);
    } else {
        let b1 = data[1];
        let b2 = data[2];
        let v1: u8 = ((b0 & 3) << 4) | (b1 >> 4);
        let v2: u8 = ((b1 & 15) << 2) | (b2 >> 6);
        let v3: u8 = b2 & 63;
        assert(v1 < 64 && (((v0 as u32) << 6) | (v1 as u32)) >> 4u32 == b0 as u32 && ((((v0 as u32)
            << 6) | (v1 as u32)) & (((1u32 << 4u32) - 1) as u32)) == (b1 >> 4) as u32)
            by (bit_vector)
            requires
                v0 == b0 >> 2,
                v1 == ((b0 & 3) << 4) | (b1 >> 4),
        ;
        lemma_letter_sextet(v1);
        let s2 = step(s1, input[1]);
        assert(s2 == DecodeState { carry: (b1 >> 4) as u32, bits: 4, out: s.out.push(b0) });
        let c2: u32 = (b1 >> 4) as u32;
        assert(v2 < 64 && ((c2 << 6) | (v2 as u32)) >> 2u32 == b1 as u32 && (((c2 << 6) | (
        v2 as u32)) & (((1u32 << 2u32) - 1) as u32)) == (b2 >> 6) as u32) by (bit_vector)
            requires
                c2 == (b1 >> 4) as u32,
                v2 == ((b1 & 15) << 2) | (b2 >> 6),
        ;
        lemma_letter_sextet(v2);
        let s3 = step(s2, input[2]);
        assert(s3 == DecodeState {
            carry: (b2 >> 6) as u32,
            bits: 2,
            out: s.out.push(b0).push(b1),
        });
        let c3: u32 = (b2 >> 6) as u32;
        assert(v3 < 64 && ((c3 << 6) | (v3 as u32)) >> 0u32 == b2 as u32 && (((c3 << 6) | (
        v3 as u32)) & (((1u32 << 0u32) - 1) as u32)) == 0) by (bit_vector)
            requires
                c3 == (b2 >> 6) as u32,
                v3 == b2 & 63,
        ;
        lemma_letter_sextet(v3);
        let s4 = step(s3, input[3]);
        assert(s4 == DecodeState { carry: 0, bits: 0, out: s.out.push(b0).push(b1).push(b2) });
        assert(s.out.push(b0).push(b1).push(b2) =~= s.out + data);
    }
}

/// Decoding what was encoded gives the bytes back, whatever was decoded
/// before, as long as no bits were left over.
pub proof fn lemma_round_trip_from(s: DecodeState, data: Seq<u8>)
    requires
        s.bits == 0,
        s.carry == 0,
    ensures
        run(s, ascii_bytes(encoded(data))).out == s.out + data,
    decreases data.len(),
{
    if data.len() == 0 {
        assert(ascii_bytes(encoded(data)) =~= Seq::<u8>::empty());
        assert(s.out + data =~= s.out);
    } else if data.len() <= 3 {
        lemma_group_round_trip(s, data);
    } else {
        let head = data.take(3);
        let tail = data.skip(3);
        assert(ascii_bytes(group(head) + encoded(tail)) =~= ascii_bytes(group(head)) + ascii_bytes(
            encoded(tail),
        ));
        lemma_run_concat(s, ascii_bytes(group(head)), ascii_bytes(encoded(tail)));
        lemma_group_round_trip(s, head);
        let middle = run(s, ascii_bytes(group(head)));
        lemma_round_trip_from(middle, tail);
        assert(s.out + head + tail =~= s.out + data);
    }
}

/// Decoding the base64 text of any bytes gives the bytes back.
pub proof fn lemma_round_trip(data: Seq<u8>)
    ensures
        decoded(ascii_bytes(encoded(data))) == data,
{
    lemma_round_trip_from(start(), data);
    assert(start().out + data =~= data);
}

/// Base64 text is ASCII.
pub proof fn lemma_encoded_is_ascii(data: Seq<u8>)
    ensures
        vstd::utf8::is_ascii_chars(encoded(data)),
    decreases data.len(),
{
    if data.len() > 3 {
        lemma_encoded_is_ascii(data.skip(3));
    }
}

/// Decoding the base64 text of any bytes, taken as the UTF-8 text that it
/// is, gives the bytes back.
pub proof fn lemma_text_round_trip(data: Seq<u8>)
    ensures
        decoded(vstd::utf8::encode_utf8(encoded(data))) == data,
{
    lemma_encoded_is_ascii(data);
    vstd::utf8::is_ascii_chars_encode_utf8(encoded(data));
    assert(vstd::utf8::encode_utf8(encoded(data)) =~= ascii_bytes(encoded(data)));
    lemma_round_trip(data);
}

/// The letter for the six bits `v`.
fn letter_for(v: u8) -> (c: char)
    requires
        v < 64,
    ensures
        c == letter(v),
{
    if v < 26 {
        (0x41 + v) as char
    } else if v < 52 {
        (0x61 + (v - 26)) as char
    } else if v < 62 {
        (0x30 + (v - 52)) as char
    } else if v == 62 {
        '+'
    } else {
        '/'
    }
}

/// The six bits that the byte `b` stands for, if it is a letter.
fn sextet_for(b: u8) -> (r: Option<u8>)
    ensures
        r == sextet_of(b),
        r matches Some(v) ==> v < 64,
{
    if 0x41 <= b && b <= 0x5a {
        Some(b - 0x41)
    } else if 0x61 <= b && b <= 0x7a {
        Some(b - 0x61 + 26)
    } else if 0x30 <= b && b <= 0x39 {
        Some(b - 0x30 + 52)
    } else if b == 0x2b {
        Some(62)
    } else if b == 0x2f {
        Some(63)
    } else {
        None
    }
}

/// Encode `data` as base64 text.
pub fn base64_encode(data: &[u8]) -> (r: String)
    ensures
        r@ == encoded(data@),
        decoded(vstd::utf8::encode_utf8(r@)) == data@,
{
    proof {
        lemma_text_round_trip(data@);
    }
    let mut result = String::new();
    let total = data.len();
    let mut i: usize = 0;
    assert(data@.skip(0) =~= data@);
    assert(result@ + encoded(data@) =~= encoded(data@));
    while total - i > 3
        invariant
            0 <= i <= total == data@.len(),
            result@ + encoded(data@.skip(i as int)) == encoded(data@),
        decreases total - i,
    {
        let b0 = data[i];
        let b1 = data[i + 1];
        let b2 = data[i + 2];
        let ghost before = result@;
        let ghost rest = data@.skip(i as int);
        proof {
            assert(b0 >> 2 < 64) by (bit_vector);
            assert(((b0 & 3) << 4) | (b1 >> 4) < 64) by (bit_vector);
            assert(((b1 & 15) << 2) | (b2 >> 6) < 64) by (bit_vector);
            assert(b2 & 63 < 64) by (bit_vector);
        }
        result.push(letter_for(b0 >> 2));
        result.push(letter_for(((b0 & 3) << 4) | (b1 >> 4)));
        result.push(letter_for(((b1 & 15) << 2) | (b2 >> 6)));
        result.push(letter_for(b2 & 63));
        proof {
            assert(rest.skip(3) =~= data@.skip(i + 3));
            assert(result@ =~= before + group(rest.take(3)));
            assert(before + group(rest.take(3)) + encoded(rest.skip(3)) =~= before + (group(
                rest.take(3),
            ) + encoded(rest.skip(3))));
        }
        i += 3;
    }
    let ghost before = result@;
    let ghost rest = data@.skip(i as int);
    if total - i == 1 {
        let b0 = data[i];
        proof {
            assert(b0 >> 2 < 64) by (bit_vector);
            assert((b0 & 3) << 4 < 64) by (bit_vector);
        }
        result.push(letter_for(b0 >> 2));
        result.push(letter_for((b0 & 3) << 4));
        result.push(PAD);
        result.push(PAD);
        assert(result@ =~= before + group(rest));
    } else if total - i == 2 {
        let b0 = data[i];
        let b1 = data[i + 1];
        proof {
            assert(b0 >> 2 < 64) by (bit_vector);
            assert(((b0 & 3) << 4) | (b1 >> 4) < 64) by (bit_vector);
            assert((b1 & 15) << 2 < 64) by (bit_vector);
        }
        result.push(letter_for(b0 >> 2));
        result.push(letter_for(((b0 & 3) << 4) | (b1 >> 4)));
        result.push(letter_for((b1 & 15) << 2));
        result.push(PAD);
        assert(result@ =~= before + group(rest));
    } else if total - i == 3 {
        let b0 = data[i];
        let b1 = data[i + 1];
        let b2 = data[i + 2];
        proof {
            assert(b0 >> 2 < 64) by (bit_vector);
            assert(((b0 & 3) << 4) | (b1 >> 4) < 64) by (bit_vector);
            assert(((b1 & 15) << 2) | (b2 >> 6) < 64) by (bit_vector);
            assert(b2 & 63 < 64) by (bit_vector);
        }
        result.push(letter_for(b0 >> 2));
        result.push(letter_for(((b0 & 3) << 4) | (b1 >> 4)));
        result.push(letter_for(((b1 & 15) << 2) | (b2 >> 6)));
        result.push(letter_for(b2 & 63));
        assert(result@ =~= before + group(rest));
    } else {
        assert(result@ =~= before + encoded(rest));
    }
    result
}

/// Decode the base64 letters among `input`; all other bytes are skipped.
pub fn base64_decode_bytes(input: &[u8]) -> (r: Vec<u8>)
    ensures
        r@ == decoded(input@),
{
    let mut result: Vec<u8> = Vec::new();
    let mut carry: u32 = 0;
    let mut bits: u32 = 0;
    let total = input.len();
    let mut i: usize = 0;
    while i < total
        invariant
            0 <= i <= total == input@.len(),
            state_wf(DecodeState { carry, bits, out: result@ }),
            run(start(), input@.take(i as int)) == (DecodeState { carry, bits, out: result@ }),
        decreases total - i,
    {
        proof {
            assert(input@.take(i + 1).drop_last() =~= input@.take(i as int));
        }
        match sextet_for(input[i]) {
            Some(v) => {
                let sextet = v as u32;
                let buffer = (carry << 6) | sextet;
                if bits >= 2 {
                    let left = bits - 2;
                    proof {
                        assert(((buffer >> left) < 256 && (1u32 << left) >= 1 && (buffer & (((1u32
                            << left) - 1) as u32)) < (1u32 << left) && (1u32 << left) <= 16))
                            by (bit_vector)
                            requires
                                buffer == (carry << 6) | sextet,
                                sextet < 64,
                                (left == 0 && carry < 4) || (left == 2 && carry < 16) || (left
                                    == 4 && carry < 64),
                        ;
                        assert(left == 0 ==> (1u32 << left) == 1) by (bit_vector);
                        assert(left == 2 ==> (1u32 << left) == 4) by (bit_vector);
                        assert(left == 4 ==> (1u32 << left) == 16) by (bit_vector);
                    }
                    let byte = (buffer >> left) as u8;
                    result.push(byte);
                    carry = buffer & ((1u32 << left) - 1);
                    bits = left;
                } else {
                    proof {
                        assert(buffer < 64) by (bit_vector)
                            requires
                                buffer == (carry << 6) | sextet,
                                sextet < 64,
                                carry == 0,
                        ;
                    }
                    carry = buffer;
                    bits = bits + 6;
                }
            },
            None => {},
        }
        i += 1;
    }
    assert(input@.take(total as int) =~= input@);
    result
}

/// Decode base64 text. Every scalar that is not a letter of the alphabet is
/// skipped.
pub fn base64_decode(s: &str) -> (r: Option<Vec<u8>>)
    ensures
        r == Some(r->0),
        r->0@ == decoded(vstd::utf8::encode_utf8(s@)),
{
    Some(base64_decode_bytes(s.as_bytes()))
}

} // verus!
