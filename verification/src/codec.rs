//! The MessagePack encoding of the values that the persisted event log is
//! made of.
//!
//! Every value is written in the shortest form that MessagePack has for
//! it: an unsigned integer as a one-byte fixint or behind a width marker,
//! big endian; a flag as one byte; a text as its length in bytes, again in
//! the shortest form, followed by its UTF-8 encoding; an absent text as
//! nil. A struct is an array of its fields in order. An enum variant
//! without fields is its name as a text, and a variant with fields is a
//! map with one entry, from its name to its value. For each kind of value
//! there is the encoding (`enc_*`), the decoding at a position of a byte
//! sequence (`dec_*`), which accepts the shortest form only, the proof
//! that decoding an encoding gives the value back, and the proof that
//! nothing but an encoding is decoded.

use crate::text::{byte_len, byte_length, lemma_encode_concat, lemma_scalar_width};
use vstd::arithmetic::div_mod::lemma_fundamental_div_mod_converse;
use vstd::prelude::*;
use vstd::slice::{slice_subrange, slice_to_vec};
use vstd::utf8::*;

verus! {

/// The marker of an absent value.
pub const NIL: u8 = 0xc0;

/// The marker of the flag that is not set.
pub const FALSE: u8 = 0xc2;

/// The marker of the flag that is set.
pub const TRUE: u8 = 0xc3;

/// The marker before an unsigned integer of one byte.
pub const UINT_8: u8 = 0xcc;

/// The marker before an unsigned integer of two bytes.
pub const UINT_16: u8 = 0xcd;

/// The marker before an unsigned integer of four bytes.
pub const UINT_32: u8 = 0xce;

/// The marker before an unsigned integer of eight bytes.
pub const UINT_64: u8 = 0xcf;

/// The marker of an empty text; a text of up to 31 bytes has its length
/// added to it.
pub const FIXSTR: u8 = 0xa0;

/// The marker before a text length of one byte.
pub const STR_8: u8 = 0xd9;

/// The marker before a text length of two bytes.
pub const STR_16: u8 = 0xda;

/// The marker before a text length of four bytes.
pub const STR_32: u8 = 0xdb;

/// The marker of an array of one element.
pub const ARRAY_OF_1: u8 = 0x91;

/// The marker of an array of two elements.
pub const ARRAY_OF_2: u8 = 0x92;

/// The marker of an array of four elements.
pub const ARRAY_OF_4: u8 = 0x94;

/// The marker of an array of five elements.
pub const ARRAY_OF_5: u8 = 0x95;

/// The marker of a map with one entry.
pub const MAP_OF_1: u8 = 0x81;

/// `bytes` holds `enc` at position `at`.
pub open spec fn holds_at(bytes: Seq<u8>, at: int, enc: Seq<u8>) -> bool {
    0 <= at && at + enc.len() <= bytes.len() && bytes.subrange(at, at + enc.len()) == enc
}

/// A sequence that holds `a + b` holds `a`, and `b` right after it.
pub proof fn lemma_holds_split(bytes: Seq<u8>, at: int, a: Seq<u8>, b: Seq<u8>)
    requires
        holds_at(bytes, at, a + b),
    ensures
        holds_at(bytes, at, a),
        holds_at(bytes, at + a.len(), b),
{
    let whole = bytes.subrange(at, at + (a + b).len());
    assert(bytes.subrange(at, at + a.len()) =~= whole.subrange(0, a.len() as int));
    assert((a + b).subrange(0, a.len() as int) =~= a);
    assert(bytes.subrange(at + a.len(), at + a.len() + b.len()) =~= whole.subrange(
        a.len() as int,
        (a + b).len() as int,
    ));
    assert((a + b).subrange(a.len() as int, (a + b).len() as int) =~= b);
}

/// A stretch of bytes is its first part followed by its second part.
pub proof fn lemma_subrange_join(bytes: Seq<u8>, a: int, b: int, c: int)
    requires
        0 <= a <= b <= c <= bytes.len(),
    ensures
        bytes.subrange(a, c) == bytes.subrange(a, b) + bytes.subrange(b, c),
{
    assert(bytes.subrange(a, c) =~= bytes.subrange(a, b) + bytes.subrange(b, c));
}

/// The two bytes of a number below 65536, big endian.
pub open spec fn be16(x: int) -> Seq<u8> {
    seq![(x / 256) as u8, (x % 256) as u8]
}

/// The four bytes of a number below 2^32, big endian.
pub open spec fn be32(x: int) -> Seq<u8> {
    be16(x / 65536) + be16(x % 65536)
}

/// The eight bytes of a number below 2^64, big endian.
pub open spec fn be64(x: int) -> Seq<u8> {
    be32(x / 4294967296) + be32(x % 4294967296)
}

/// The number that the two bytes at `at` stand for, big endian.
pub open spec fn wide16(bytes: Seq<u8>, at: int) -> int {
    bytes[at] * 256 + bytes[at + 1]
}

/// The number that the four bytes at `at` stand for, big endian.
pub open spec fn wide32(bytes: Seq<u8>, at: int) -> int {
    wide16(bytes, at) * 65536 + wide16(bytes, at + 2)
}

/// The number that the eight bytes at `at` stand for, big endian.
pub open spec fn wide64(bytes: Seq<u8>, at: int) -> int {
    wide32(bytes, at) * 4294967296 + wide32(bytes, at + 4)
}

/// Two bytes that were written for a number stand for it.
pub proof fn lemma_be16(bytes: Seq<u8>, at: int, x: int)
    requires
        0 <= x < 65536,
        holds_at(bytes, at, be16(x)),
    ensures
        wide16(bytes, at) == x,
        be16(x).len() == 2,
{
    let piece = bytes.subrange(at, at + 2);
    assert(piece[0] == be16(x)[0]);
    assert(piece[1] == be16(x)[1]);
}

/// Four bytes that were written for a number stand for it.
pub proof fn lemma_be32(bytes: Seq<u8>, at: int, x: int)
    requires
        0 <= x < 4294967296,
        holds_at(bytes, at, be32(x)),
    ensures
        wide32(bytes, at) == x,
        be32(x).len() == 4,
{
    lemma_holds_split(bytes, at, be16(x / 65536), be16(x % 65536));
    lemma_be16(bytes, at, x / 65536);
    lemma_be16(bytes, at + 2, x % 65536);
}

/// Eight bytes that were written for a number stand for it.
pub proof fn lemma_be64(bytes: Seq<u8>, at: int, x: int)
    requires
        0 <= x < 18446744073709551616,
        holds_at(bytes, at, be64(x)),
    ensures
        wide64(bytes, at) == x,
        be64(x).len() == 8,
{
    assert(be32(x / 4294967296).len() == 4);
    assert(be32(x % 4294967296).len() == 4);
    lemma_holds_split(bytes, at, be32(x / 4294967296), be32(x % 4294967296));
    lemma_be32(bytes, at, x / 4294967296);
    lemma_be32(bytes, at + 4, x % 4294967296);
}

/// Two bytes are what is written for the number they stand for.
pub proof fn lemma_wide16(bytes: Seq<u8>, at: int)
    requires
        0 <= at,
        at + 2 <= bytes.len(),
    ensures
        0 <= wide16(bytes, at) < 65536,
        bytes.subrange(at, at + 2) == be16(wide16(bytes, at)),
{
    assert(bytes.subrange(at, at + 2) =~= be16(wide16(bytes, at)));
}

/// Four bytes are what is written for the number they stand for.
pub proof fn lemma_wide32(bytes: Seq<u8>, at: int)
    requires
        0 <= at,
        at + 4 <= bytes.len(),
    ensures
        0 <= wide32(bytes, at) < 4294967296,
        bytes.subrange(at, at + 4) == be32(wide32(bytes, at)),
{
    lemma_wide16(bytes, at);
    lemma_wide16(bytes, at + 2);
    lemma_subrange_join(bytes, at, at + 2, at + 4);
    lemma_fundamental_div_mod_converse(
        wide32(bytes, at),
        65536,
        wide16(bytes, at),
        wide16(bytes, at + 2),
    );
}

/// Eight bytes are what is written for the number they stand for.
pub proof fn lemma_wide64(bytes: Seq<u8>, at: int)
    requires
        0 <= at,
        at + 8 <= bytes.len(),
    ensures
        0 <= wide64(bytes, at) < 18446744073709551616,
        bytes.subrange(at, at + 8) == be64(wide64(bytes, at)),
{
    lemma_wide32(bytes, at);
    lemma_wide32(bytes, at + 4);
    lemma_subrange_join(bytes, at, at + 4, at + 8);
    lemma_fundamental_div_mod_converse(
        wide64(bytes, at),
        4294967296,
        wide32(bytes, at),
        wide32(bytes, at + 4),
    );
}

/// The encoding of an unsigned integer: the shortest of the five forms
/// that holds it.
pub open spec fn enc_u64(x: u64) -> Seq<u8> {
    if x < 128 {
        seq![x as u8]
    } else if x < 256 {
        seq![UINT_8, x as u8]
    } else if x < 65536 {
        seq![UINT_16] + be16(x as int)
    } else if x < 4294967296 {
        seq![UINT_32] + be32(x as int)
    } else {
        seq![UINT_64] + be64(x as int)
    }
}

/// The unsigned integer at `at`, and the position after it. A number
/// written in a longer form than it needs is refused.
pub open spec fn dec_u64(bytes: Seq<u8>, at: int) -> Option<(u64, int)> {
    if !(0 <= at < bytes.len()) {
        None
    } else if bytes[at] < 128 {
        Some((bytes[at] as u64, at + 1))
    } else if bytes[at] == UINT_8 && at + 2 <= bytes.len() && bytes[at + 1] >= 128 {
        Some((bytes[at + 1] as u64, at + 2))
    } else if bytes[at] == UINT_16 && at + 3 <= bytes.len() && wide16(bytes, at + 1) >= 256 {
        Some((wide16(bytes, at + 1) as u64, at + 3))
    } else if bytes[at] == UINT_32 && at + 5 <= bytes.len() && wide32(bytes, at + 1) >= 65536 {
        Some((wide32(bytes, at + 1) as u64, at + 5))
    } else if bytes[at] == UINT_64 && at + 9 <= bytes.len() && wide64(bytes, at + 1)
        >= 4294967296 {
        Some((wide64(bytes, at + 1) as u64, at + 9))
    } else {
        None
    }
}

/// The encoding of a byte: that of the number.
pub open spec fn enc_u8(x: u8) -> Seq<u8> {
    enc_u64(x as u64)
}

/// The byte at `at`: an unsigned integer below 256.
pub open spec fn dec_u8(bytes: Seq<u8>, at: int) -> Option<(u8, int)> {
    match dec_u64(bytes, at) {
        Some((n, next)) => if n <= u8::MAX {
            Some((n as u8, next))
        } else {
            None
        },
        None => None,
    }
}

/// The encoding of a 32-bit number: that of the number.
pub open spec fn enc_u32(x: u32) -> Seq<u8> {
    enc_u64(x as u64)
}

/// The 32-bit number at `at`: an unsigned integer below 2^32.
pub open spec fn dec_u32(bytes: Seq<u8>, at: int) -> Option<(u32, int)> {
    match dec_u64(bytes, at) {
        Some((n, next)) => if n <= u32::MAX {
            Some((n as u32, next))
        } else {
            None
        },
        None => None,
    }
}

/// The encoding of a count: that of the number.
pub open spec fn enc_count(n: usize) -> Seq<u8> {
    enc_u64(n as u64)
}

/// The count at `at`: an unsigned integer that fits a `usize`.
pub open spec fn dec_count(bytes: Seq<u8>, at: int) -> Option<(usize, int)> {
    match dec_u64(bytes, at) {
        Some((n, next)) => if n <= usize::MAX {
            Some((n as usize, next))
        } else {
            None
        },
        None => None,
    }
}

/// The encoding of a flag: one byte.
pub open spec fn enc_bool(b: bool) -> Seq<u8> {
    seq![if b { TRUE } else { FALSE }]
}

/// The flag at `at`.
pub open spec fn dec_bool(bytes: Seq<u8>, at: int) -> Option<(bool, int)> {
    if 0 <= at < bytes.len() && (bytes[at] == TRUE || bytes[at] == FALSE) {
        Some((bytes[at] == TRUE, at + 1))
    } else {
        None
    }
}

/// The encoding of a marker: the byte itself.
pub open spec fn enc_mark(mark: u8) -> Seq<u8> {
    seq![mark]
}

/// The position after the marker `mark`, if that is the byte at `at`.
pub open spec fn dec_mark(bytes: Seq<u8>, at: int, mark: u8) -> Option<int> {
    if 0 <= at < bytes.len() && bytes[at] == mark {
        Some(at + 1)
    } else {
        None
    }
}

/// A text whose length in bytes can be written down: MessagePack has four
/// bytes for it at most.
pub open spec fn text_fits(text: Seq<char>) -> bool {
    byte_len(text) < 4294967296
}

/// The encoding of a text length: the shortest of the four forms that
/// holds it.
pub open spec fn enc_text_head(n: int) -> Seq<u8> {
    if n < 32 {
        seq![(FIXSTR + n) as u8]
    } else if n < 256 {
        seq![STR_8, n as u8]
    } else if n < 65536 {
        seq![STR_16] + be16(n)
    } else {
        seq![STR_32] + be32(n)
    }
}

/// The text length at `at`, and the position after it. A length written in
/// a longer form than it needs is refused.
pub open spec fn dec_text_head(bytes: Seq<u8>, at: int) -> Option<(int, int)> {
    if !(0 <= at < bytes.len()) {
        None
    } else if FIXSTR <= bytes[at] < FIXSTR + 32 {
        Some((bytes[at] - FIXSTR, at + 1))
    } else if bytes[at] == STR_8 && at + 2 <= bytes.len() && bytes[at + 1] >= 32 {
        Some((bytes[at + 1] as int, at + 2))
    } else if bytes[at] == STR_16 && at + 3 <= bytes.len() && wide16(bytes, at + 1) >= 256 {
        Some((wide16(bytes, at + 1), at + 3))
    } else if bytes[at] == STR_32 && at + 5 <= bytes.len() && wide32(bytes, at + 1) >= 65536 {
        Some((wide32(bytes, at + 1), at + 5))
    } else {
        None
    }
}

/// The encoding of a text: its length in bytes, then its UTF-8 encoding.
pub open spec fn enc_text(text: Seq<char>) -> Seq<u8> {
    enc_text_head(byte_len(text)) + encode_utf8(text)
}

/// The text at `at`: a length, then as many bytes of well-formed UTF-8.
pub open spec fn dec_text(bytes: Seq<u8>, at: int) -> Option<(Seq<char>, int)> {
    match dec_text_head(bytes, at) {
        Some((n, start)) => if start + n <= bytes.len() && valid_utf8(
            bytes.subrange(start, start + n),
        ) {
            Some((decode_utf8(bytes.subrange(start, start + n)), start + n))
        } else {
            None
        },
        None => None,
    }
}

/// The encoding of a text that may be absent: nil, or the text.
pub open spec fn enc_optional_text(text: Option<Seq<char>>) -> Seq<u8> {
    match text {
        Some(t) => enc_text(t),
        None => enc_mark(NIL),
    }
}

/// The optional text at `at`.
pub open spec fn dec_optional_text(bytes: Seq<u8>, at: int) -> Option<(Option<Seq<char>>, int)> {
    if dec_mark(bytes, at, NIL) is Some {
        Some((None, at + 1))
    } else {
        match dec_text(bytes, at) {
            Some((t, next)) => Some((Some(t), next)),
            None => None,
        }
    }
}

/// The head of an enum variant without fields: its name.
pub open spec fn enc_unit(name: Seq<char>) -> Seq<u8> {
    enc_text(name)
}

/// The head of an enum variant with fields: the marker of a map with one
/// entry, then its name. The value of the entry follows.
pub open spec fn enc_keyed(name: Seq<char>) -> Seq<u8> {
    enc_mark(MAP_OF_1) + enc_text(name)
}

/// The head of the enum variant at `at`: whether a value follows, the
/// name, and the position after the head.
pub open spec fn dec_head(bytes: Seq<u8>, at: int) -> Option<(bool, Seq<char>, int)> {
    if dec_mark(bytes, at, MAP_OF_1) is Some {
        match dec_text(bytes, at + 1) {
            Some((name, next)) => Some((true, name, next)),
            None => None,
        }
    } else {
        match dec_text(bytes, at) {
            Some((name, next)) => Some((false, name, next)),
            None => None,
        }
    }
}

/// Decoding the encoding of an unsigned integer gives the number.
pub proof fn lemma_u64_round_trip(bytes: Seq<u8>, at: int, x: u64)
    requires
        holds_at(bytes, at, enc_u64(x)),
    ensures
        dec_u64(bytes, at) == Some((x, at + enc_u64(x).len())),
        1 <= enc_u64(x).len() <= 9,
{
    let enc = enc_u64(x);
    assert(bytes.subrange(at, at + enc.len())[0] == enc[0]);
    if x < 128 {
    } else if x < 256 {
        assert(bytes.subrange(at, at + enc.len())[1] == enc[1]);
    } else if x < 65536 {
        lemma_holds_split(bytes, at, seq![UINT_16], be16(x as int));
        lemma_be16(bytes, at + 1, x as int);
    } else if x < 4294967296 {
        assert(be32(x as int).len() == 4);
        lemma_holds_split(bytes, at, seq![UINT_32], be32(x as int));
        lemma_be32(bytes, at + 1, x as int);
    } else {
        assert(be64(x as int).len() == 8);
        lemma_holds_split(bytes, at, seq![UINT_64], be64(x as int));
        lemma_be64(bytes, at + 1, x as int);
    }
}

/// Decoding the encoding of a byte gives the byte.
pub proof fn lemma_u8_round_trip(bytes: Seq<u8>, at: int, x: u8)
    requires
        holds_at(bytes, at, enc_u8(x)),
    ensures
        dec_u8(bytes, at) == Some((x, at + enc_u8(x).len())),
{
    lemma_u64_round_trip(bytes, at, x as u64);
}

/// Decoding the encoding of a 32-bit number gives the number.
pub proof fn lemma_u32_round_trip(bytes: Seq<u8>, at: int, x: u32)
    requires
        holds_at(bytes, at, enc_u32(x)),
    ensures
        dec_u32(bytes, at) == Some((x, at + enc_u32(x).len())),
{
    lemma_u64_round_trip(bytes, at, x as u64);
}

/// Decoding the encoding of a count gives the count.
pub proof fn lemma_count_round_trip(bytes: Seq<u8>, at: int, n: usize)
    requires
        holds_at(bytes, at, enc_count(n)),
    ensures
        dec_count(bytes, at) == Some((n, at + enc_count(n).len())),
{
    lemma_u64_round_trip(bytes, at, n as u64);
}

/// Decoding the encoding of a flag gives the flag.
pub proof fn lemma_bool_round_trip(bytes: Seq<u8>, at: int, b: bool)
    requires
        holds_at(bytes, at, enc_bool(b)),
    ensures
        dec_bool(bytes, at) == Some((b, at + 1)),
{
    assert(bytes.subrange(at, at + 1)[0] == enc_bool(b)[0]);
}

/// A marker is found where it was written.
pub proof fn lemma_mark_round_trip(bytes: Seq<u8>, at: int, mark: u8)
    requires
        holds_at(bytes, at, enc_mark(mark)),
    ensures
        dec_mark(bytes, at, mark) == Some(at + 1),
        bytes[at] == mark,
{
    assert(bytes.subrange(at, at + 1)[0] == mark);
}

/// The first byte of an encoded text is a marker of a text: it is neither
/// nil nor the marker of a map.
pub proof fn lemma_text_starts(text: Seq<char>)
    requires
        text_fits(text),
    ensures
        enc_text(text).len() >= 1,
        enc_text(text)[0] != NIL,
        enc_text(text)[0] != MAP_OF_1,
{
    let n = byte_len(text);
    let head = enc_text_head(n);
    assert(head.len() >= 1);
    assert(enc_text(text)[0] == head[0]);
}

/// Decoding the encoding of a text gives the text.
pub proof fn lemma_text_round_trip(bytes: Seq<u8>, at: int, text: Seq<char>)
    requires
        text_fits(text),
        holds_at(bytes, at, enc_text(text)),
    ensures
        dec_text(bytes, at) == Some((text, at + enc_text(text).len())),
{
    let n = byte_len(text);
    let head = enc_text_head(n);
    lemma_holds_split(bytes, at, head, encode_utf8(text));
    assert(bytes.subrange(at, at + head.len())[0] == head[0]);
    if n < 32 {
    } else if n < 256 {
        assert(bytes.subrange(at, at + head.len())[1] == head[1]);
    } else if n < 65536 {
        lemma_holds_split(bytes, at, seq![STR_16], be16(n));
        lemma_be16(bytes, at + 1, n);
    } else {
        assert(be32(n).len() == 4);
        lemma_holds_split(bytes, at, seq![STR_32], be32(n));
        lemma_be32(bytes, at + 1, n);
    }
    assert(dec_text_head(bytes, at) == Some((n, at + head.len())));
    encode_utf8_valid_utf8(text);
    encode_utf8_decode_utf8(text);
}

/// Decoding the encoding of an optional text gives it back.
pub proof fn lemma_optional_text_round_trip(bytes: Seq<u8>, at: int, text: Option<Seq<char>>)
    requires
        text matches Some(t) ==> text_fits(t),
        holds_at(bytes, at, enc_optional_text(text)),
    ensures
        dec_optional_text(bytes, at) == Some((text, at + enc_optional_text(text).len())),
{
    match text {
        Some(t) => {
            lemma_text_starts(t);
            assert(bytes.subrange(at, at + enc_text(t).len())[0] == enc_text(t)[0]);
            lemma_text_round_trip(bytes, at, t);
        },
        None => {
            lemma_mark_round_trip(bytes, at, NIL);
        },
    }
}

/// Decoding the head of a variant without fields gives its name.
pub proof fn lemma_unit_round_trip(bytes: Seq<u8>, at: int, name: Seq<char>)
    requires
        text_fits(name),
        holds_at(bytes, at, enc_unit(name)),
    ensures
        dec_head(bytes, at) == Some((false, name, at + enc_unit(name).len())),
{
    lemma_text_starts(name);
    assert(bytes.subrange(at, at + enc_text(name).len())[0] == enc_text(name)[0]);
    lemma_text_round_trip(bytes, at, name);
}

/// Decoding the head of a variant with fields gives its name.
pub proof fn lemma_keyed_round_trip(bytes: Seq<u8>, at: int, name: Seq<char>)
    requires
        text_fits(name),
        holds_at(bytes, at, enc_keyed(name)),
    ensures
        dec_head(bytes, at) == Some((true, name, at + enc_keyed(name).len())),
{
    lemma_holds_split(bytes, at, enc_mark(MAP_OF_1), enc_text(name));
    lemma_mark_round_trip(bytes, at, MAP_OF_1);
    lemma_text_round_trip(bytes, at + 1, name);
}

/// An unsigned integer is decoded from nothing but its encoding.
pub proof fn lemma_u64_sound(bytes: Seq<u8>, at: int)
    requires
        dec_u64(bytes, at) is Some,
    ensures
        dec_u64(bytes, at) matches Some(found) && at < found.1 <= bytes.len() && bytes.subrange(
            at,
            found.1,
        ) == enc_u64(found.0),
{
    let (x, next) = dec_u64(bytes, at)->0;
    if bytes[at] < 128 {
        assert(bytes.subrange(at, next) =~= enc_u64(x));
    } else if bytes[at] == UINT_8 {
        assert(bytes.subrange(at, next) =~= enc_u64(x));
    } else if bytes[at] == UINT_16 {
        lemma_wide16(bytes, at + 1);
        lemma_subrange_join(bytes, at, at + 1, next);
        assert(bytes.subrange(at, at + 1) =~= seq![UINT_16]);
    } else if bytes[at] == UINT_32 {
        lemma_wide32(bytes, at + 1);
        lemma_subrange_join(bytes, at, at + 1, next);
        assert(bytes.subrange(at, at + 1) =~= seq![UINT_32]);
    } else {
        lemma_wide64(bytes, at + 1);
        lemma_subrange_join(bytes, at, at + 1, next);
        assert(bytes.subrange(at, at + 1) =~= seq![UINT_64]);
    }
}

/// A byte is decoded from nothing but its encoding.
pub proof fn lemma_u8_sound(bytes: Seq<u8>, at: int)
    requires
        dec_u8(bytes, at) is Some,
    ensures
        dec_u8(bytes, at) matches Some(found) && at < found.1 <= bytes.len() && bytes.subrange(
            at,
            found.1,
        ) == enc_u8(found.0),
{
    lemma_u64_sound(bytes, at);
}

/// A 32-bit number is decoded from nothing but its encoding.
pub proof fn lemma_u32_sound(bytes: Seq<u8>, at: int)
    requires
        dec_u32(bytes, at) is Some,
    ensures
        dec_u32(bytes, at) matches Some(found) && at < found.1 <= bytes.len() && bytes.subrange(
            at,
            found.1,
        ) == enc_u32(found.0),
{
    lemma_u64_sound(bytes, at);
}

/// A count is decoded from nothing but its encoding.
pub proof fn lemma_count_sound(bytes: Seq<u8>, at: int)
    requires
        dec_count(bytes, at) is Some,
    ensures
        dec_count(bytes, at) matches Some(found) && at < found.1 <= bytes.len()
            && bytes.subrange(at, found.1) == enc_count(found.0),
{
    lemma_u64_sound(bytes, at);
}

/// A flag is decoded from nothing but its encoding.
pub proof fn lemma_bool_sound(bytes: Seq<u8>, at: int)
    requires
        dec_bool(bytes, at) is Some,
    ensures
        dec_bool(bytes, at) matches Some(found) && found.1 == at + 1 && found.1 <= bytes.len()
            && bytes.subrange(at, found.1) == enc_bool(found.0),
{
    assert(bytes.subrange(at, at + 1) =~= enc_bool(bytes[at] == TRUE));
}

/// A marker is found in nothing but its encoding.
pub proof fn lemma_mark_sound(bytes: Seq<u8>, at: int, mark: u8)
    requires
        dec_mark(bytes, at, mark) is Some,
    ensures
        at + 1 <= bytes.len(),
        bytes.subrange(at, at + 1) == enc_mark(mark),
{
    assert(bytes.subrange(at, at + 1) =~= enc_mark(mark));
}

/// A text is decoded from nothing but its encoding.
pub proof fn lemma_text_sound(bytes: Seq<u8>, at: int)
    requires
        dec_text(bytes, at) is Some,
    ensures
        dec_text(bytes, at) matches Some(found) && at < found.1 <= bytes.len()
            && bytes.subrange(at, found.1) == enc_text(found.0) && text_fits(found.0),
{
    let (n, start) = dec_text_head(bytes, at)->0;
    let body = bytes.subrange(start, start + n);
    decode_utf8_encode_utf8(body);
    lemma_subrange_join(bytes, at, start, start + n);
    if FIXSTR <= bytes[at] < FIXSTR + 32 {
        assert(bytes.subrange(at, start) =~= enc_text_head(n));
    } else if bytes[at] == STR_8 {
        assert(bytes.subrange(at, start) =~= enc_text_head(n));
    } else if bytes[at] == STR_16 {
        lemma_wide16(bytes, at + 1);
        lemma_subrange_join(bytes, at, at + 1, start);
        assert(bytes.subrange(at, at + 1) =~= seq![STR_16]);
    } else {
        lemma_wide32(bytes, at + 1);
        lemma_subrange_join(bytes, at, at + 1, start);
        assert(bytes.subrange(at, at + 1) =~= seq![STR_32]);
    }
}

/// An optional text is decoded from nothing but its encoding.
pub proof fn lemma_optional_text_sound(bytes: Seq<u8>, at: int)
    requires
        dec_optional_text(bytes, at) is Some,
    ensures
        dec_optional_text(bytes, at) matches Some(found) && at < found.1 <= bytes.len()
            && bytes.subrange(at, found.1) == enc_optional_text(found.0) && (found.0 matches Some(
            t,
        ) ==> text_fits(t)),
{
    if dec_mark(bytes, at, NIL) is Some {
        lemma_mark_sound(bytes, at, NIL);
    } else {
        lemma_text_sound(bytes, at);
    }
}

/// The head of a variant is decoded from nothing but its encoding.
pub proof fn lemma_head_sound(bytes: Seq<u8>, at: int)
    requires
        dec_head(bytes, at) is Some,
    ensures
        dec_head(bytes, at) matches Some(found) && at < found.2 <= bytes.len() && text_fits(
            found.1,
        ) && bytes.subrange(at, found.2) == (if found.0 {
            enc_keyed(found.1)
        } else {
            enc_unit(found.1)
        }),
{
    if dec_mark(bytes, at, MAP_OF_1) is Some {
        lemma_mark_sound(bytes, at, MAP_OF_1);
        lemma_text_sound(bytes, at + 1);
        let (name, next) = dec_text(bytes, at + 1)->0;
        lemma_subrange_join(bytes, at, at + 1, next);
    } else {
        lemma_text_sound(bytes, at);
    }
}

/// A text takes four bytes for each scalar at most.
pub proof fn lemma_byte_len_bound(text: Seq<char>)
    ensures
        byte_len(text) <= 4 * text.len(),
    decreases text.len(),
{
    if text.len() == 0 {
        assert(encode_utf8(text) =~= Seq::<u8>::empty());
    } else {
        let head = seq![text[0]];
        let rest = text.drop_first();
        assert(text =~= head + rest);
        lemma_encode_concat(head, rest);
        lemma_scalar_width(text[0]);
        lemma_byte_len_bound(rest);
    }
}

/// Two texts with the same UTF-8 encoding are the same text.
pub proof fn lemma_same_encoding(a: Seq<char>, b: Seq<char>)
    requires
        encode_utf8(a) == encode_utf8(b),
    ensures
        a == b,
{
    encode_utf8_decode_utf8(a);
    encode_utf8_decode_utf8(b);
}

/// `String::from_utf8`: the text that `bytes` encode, if they are
/// well-formed UTF-8, and nothing otherwise.
#[verifier::external_body]
fn string_from_utf8(bytes: Vec<u8>) -> (r: Option<String>)
    ensures
        r is Some <==> valid_utf8(bytes@),
        r matches Some(s) ==> encode_utf8(s@) == bytes@,
{
    String::from_utf8(bytes).ok()
}

/// Write the bytes of `piece` at the end of `out`.
fn put_bytes(out: &mut Vec<u8>, piece: &[u8])
    ensures
        final(out)@ == old(out)@ + piece@,
{
    out.extend_from_slice(piece);
    assert(out@ =~= old(out)@ + piece@);
}

fn put16(out: &mut Vec<u8>, x: u16)
    ensures
        final(out)@ == old(out)@ + be16(x as int),
{
    out.push((x / 256) as u8);
    out.push((x % 256) as u8);
    assert(out@ =~= old(out)@ + be16(x as int));
}

fn put32(out: &mut Vec<u8>, x: u32)
    ensures
        final(out)@ == old(out)@ + be32(x as int),
{
    put16(out, (x / 65536) as u16);
    put16(out, (x % 65536) as u16);
    assert(out@ =~= old(out)@ + be32(x as int));
}

fn put64(out: &mut Vec<u8>, x: u64)
    ensures
        final(out)@ == old(out)@ + be64(x as int),
{
    put32(out, (x / 4294967296) as u32);
    put32(out, (x % 4294967296) as u32);
    assert(out@ =~= old(out)@ + be64(x as int));
}

fn get16(data: &[u8], pos: usize) -> (r: u16)
    requires
        pos + 2 <= data.len(),
    ensures
        r == wide16(data@, pos as int),
{
    let high: u16 = data[pos] as u16;
    let low: u16 = data[pos + 1] as u16;
    high * 256 + low
}

fn get32(data: &[u8], pos: usize) -> (r: u32)
    requires
        pos + 4 <= data.len(),
    ensures
        r == wide32(data@, pos as int),
{
    let high: u32 = get16(data, pos) as u32;
    let low: u32 = get16(data, pos + 2) as u32;
    high * 65536 + low
}

fn get64(data: &[u8], pos: usize) -> (r: u64)
    requires
        pos + 8 <= data.len(),
    ensures
        r == wide64(data@, pos as int),
{
    let high: u64 = get32(data, pos) as u64;
    let low: u64 = get32(data, pos + 4) as u64;
    high * 4294967296 + low
}

/// Write an unsigned integer at the end of `out`.
pub fn put_u64(out: &mut Vec<u8>, x: u64)
    ensures
        final(out)@ == old(out)@ + enc_u64(x),
{
    if x < 128 {
        out.push(x as u8);
    } else if x < 256 {
        out.push(UINT_8);
        out.push(x as u8);
    } else if x < 65536 {
        out.push(UINT_16);
        put16(out, x as u16);
    } else if x < 4294967296 {
        out.push(UINT_32);
        put32(out, x as u32);
    } else {
        out.push(UINT_64);
        put64(out, x);
    }
    assert(out@ =~= old(out)@ + enc_u64(x));
}

/// Write a byte at the end of `out`.
pub fn put_u8(out: &mut Vec<u8>, x: u8)
    ensures
        final(out)@ == old(out)@ + enc_u8(x),
{
    put_u64(out, x as u64);
}

/// Write a 32-bit number at the end of `out`.
pub fn put_u32(out: &mut Vec<u8>, x: u32)
    ensures
        final(out)@ == old(out)@ + enc_u32(x),
{
    put_u64(out, x as u64);
}

/// Write a count at the end of `out`.
pub fn put_count(out: &mut Vec<u8>, n: usize)
    ensures
        final(out)@ == old(out)@ + enc_count(n),
{
    put_u64(out, n as u64);
}

/// Write a flag at the end of `out`.
pub fn put_bool(out: &mut Vec<u8>, b: bool)
    ensures
        final(out)@ == old(out)@ + enc_bool(b),
{
    out.push(if b { TRUE } else { FALSE });
    assert(out@ =~= old(out)@ + enc_bool(b));
}

/// Write a marker at the end of `out`.
pub fn put_mark(out: &mut Vec<u8>, mark: u8)
    ensures
        final(out)@ == old(out)@ + enc_mark(mark),
{
    out.push(mark);
    assert(out@ =~= old(out)@ + enc_mark(mark));
}

/// Whether the length of `text` can be written down.
pub fn fits(text: &str) -> (r: bool)
    ensures
        r == text_fits(text@),
{
    byte_length(text) as u64 <= 4294967295
}

/// Write a text at the end of `out`.
pub fn put_text(out: &mut Vec<u8>, text: &str)
    requires
        text_fits(text@),
    ensures
        final(out)@ == old(out)@ + enc_text(text@),
{
    let n = byte_length(text);
    if n < 32 {
        out.push(FIXSTR + n as u8);
    } else if n < 256 {
        out.push(STR_8);
        out.push(n as u8);
    } else if n < 65536 {
        out.push(STR_16);
        put16(out, n as u16);
    } else {
        out.push(STR_32);
        put32(out, n as u32);
    }
    assert(out@ =~= old(out)@ + enc_text_head(n as int));
    put_bytes(out, text.as_bytes());
    assert(out@ =~= old(out)@ + enc_text(text@));
}

/// Write an optional text at the end of `out`.
pub fn put_optional_text(out: &mut Vec<u8>, text: &Option<String>)
    requires
        text matches Some(t) ==> text_fits(t@),
    ensures
        final(out)@ == old(out)@ + enc_optional_text(crate::events::optional_text(*text)),
{
    match text {
        Some(t) => put_text(out, t.as_str()),
        None => put_mark(out, NIL),
    }
}

/// Write the head of an enum variant without fields at the end of `out`.
pub fn put_unit(out: &mut Vec<u8>, name: &str)
    requires
        text_fits(name@),
    ensures
        final(out)@ == old(out)@ + enc_unit(name@),
{
    put_text(out, name);
}

/// Write the head of an enum variant with fields at the end of `out`.
pub fn put_keyed(out: &mut Vec<u8>, name: &str)
    requires
        text_fits(name@),
    ensures
        final(out)@ == old(out)@ + enc_keyed(name@),
{
    put_mark(out, MAP_OF_1);
    put_text(out, name);
    assert(out@ =~= old(out)@ + enc_keyed(name@));
}

/// Read the unsigned integer at `pos`.
pub fn read_u64(data: &[u8], pos: usize) -> (r: Option<(u64, usize)>)
    ensures
        match r {
            Some((x, next)) => dec_u64(data@, pos as int) == Some((x, next as int)),
            None => dec_u64(data@, pos as int) is None,
        },
{
    if pos >= data.len() {
        return None;
    }
    let mark = data[pos];
    let room = data.len() - pos;
    if mark < 128 {
        Some((mark as u64, pos + 1))
    } else if mark == UINT_8 && room >= 2 {
        let x = data[pos + 1];
        if x >= 128 {
            Some((x as u64, pos + 2))
        } else {
            None
        }
    } else if mark == UINT_16 && room >= 3 {
        let x = get16(data, pos + 1);
        if x >= 256 {
            Some((x as u64, pos + 3))
        } else {
            None
        }
    } else if mark == UINT_32 && room >= 5 {
        let x = get32(data, pos + 1);
        if x >= 65536 {
            Some((x as u64, pos + 5))
        } else {
            None
        }
    } else if mark == UINT_64 && room >= 9 {
        let x = get64(data, pos + 1);
        if x >= 4294967296 {
            Some((x, pos + 9))
        } else {
            None
        }
    } else {
        None
    }
}

/// Read the byte at `pos`.
pub fn read_u8(data: &[u8], pos: usize) -> (r: Option<(u8, usize)>)
    ensures
        match r {
            Some((x, next)) => dec_u8(data@, pos as int) == Some((x, next as int)),
            None => dec_u8(data@, pos as int) is None,
        },
{
    match read_u64(data, pos) {
        Some((n, next)) => {
            if n <= 255 {
                Some((n as u8, next))
            } else {
                None
            }
        },
        None => None,
    }
}

/// Read the 32-bit number at `pos`.
pub fn read_u32(data: &[u8], pos: usize) -> (r: Option<(u32, usize)>)
    ensures
        match r {
            Some((x, next)) => dec_u32(data@, pos as int) == Some((x, next as int)),
            None => dec_u32(data@, pos as int) is None,
        },
{
    match read_u64(data, pos) {
        Some((n, next)) => {
            if n <= 4294967295 {
                Some((n as u32, next))
            } else {
                None
            }
        },
        None => None,
    }
}

/// Read the count at `pos`.
pub fn read_count(data: &[u8], pos: usize) -> (r: Option<(usize, usize)>)
    ensures
        match r {
            Some((n, next)) => dec_count(data@, pos as int) == Some((n, next as int)),
            None => dec_count(data@, pos as int) is None,
        },
{
    match read_u64(data, pos) {
        Some((n, next)) => {
            if n <= usize::MAX as u64 {
                Some((n as usize, next))
            } else {
                None
            }
        },
        None => None,
    }
}

/// Read the flag at `pos`.
pub fn read_bool(data: &[u8], pos: usize) -> (r: Option<(bool, usize)>)
    ensures
        match r {
            Some((b, next)) => dec_bool(data@, pos as int) == Some((b, next as int)),
            None => dec_bool(data@, pos as int) is None,
        },
{
    if pos < data.len() && (data[pos] == TRUE || data[pos] == FALSE) {
        Some((data[pos] == TRUE, pos + 1))
    } else {
        None
    }
}

/// Read the marker `mark` at `pos`.
pub fn read_mark(data: &[u8], pos: usize, mark: u8) -> (r: Option<usize>)
    ensures
        match r {
            Some(next) => dec_mark(data@, pos as int, mark) == Some(next as int),
            None => dec_mark(data@, pos as int, mark) is None,
        },
{
    if pos < data.len() && data[pos] == mark {
        Some(pos + 1)
    } else {
        None
    }
}

fn read_text_head(data: &[u8], pos: usize) -> (r: Option<(usize, usize)>)
    ensures
        match r {
            Some((n, start)) => dec_text_head(data@, pos as int) == Some((n as int, start as int)),
            None => dec_text_head(data@, pos as int) is None,
        },
{
    if pos >= data.len() {
        return None;
    }
    let mark = data[pos];
    let room = data.len() - pos;
    if FIXSTR <= mark && mark < FIXSTR + 32 {
        Some(((mark - FIXSTR) as usize, pos + 1))
    } else if mark == STR_8 && room >= 2 {
        let n = data[pos + 1];
        if n >= 32 {
            Some((n as usize, pos + 2))
        } else {
            None
        }
    } else if mark == STR_16 && room >= 3 {
        let n = get16(data, pos + 1);
        if n >= 256 {
            Some((n as usize, pos + 3))
        } else {
            None
        }
    } else if mark == STR_32 && room >= 5 {
        let n = get32(data, pos + 1);
        if n >= 65536 {
            Some((n as usize, pos + 5))
        } else {
            None
        }
    } else {
        None
    }
}

/// Read the text at `pos`.
pub fn read_text(data: &[u8], pos: usize) -> (r: Option<(String, usize)>)
    ensures
        match r {
            Some((text, next)) => dec_text(data@, pos as int) == Some((text@, next as int)),
            None => dec_text(data@, pos as int) is None,
        },
{
    match read_text_head(data, pos) {
        Some((n, start)) => {
            if n <= data.len() - start {
                let end = start + n;
                let piece = slice_to_vec(slice_subrange(data, start, end));
                match string_from_utf8(piece) {
                    Some(text) => {
                        proof {
                            encode_utf8_decode_utf8(text@);
                        }
                        Some((text, end))
                    },
                    None => None,
                }
            } else {
                None
            }
        },
        None => None,
    }
}

/// Read the optional text at `pos`.
pub fn read_optional_text(data: &[u8], pos: usize) -> (r: Option<(Option<String>, usize)>)
    ensures
        match r {
            Some((text, next)) => dec_optional_text(data@, pos as int) == Some(
                (crate::events::optional_text(text), next as int),
            ),
            None => dec_optional_text(data@, pos as int) is None,
        },
{
    match read_mark(data, pos, NIL) {
        Some(next) => Some((None, next)),
        None => match read_text(data, pos) {
            Some((text, next)) => Some((Some(text), next)),
            None => None,
        },
    }
}

/// Read the head of the enum variant at `pos`.
pub fn read_head(data: &[u8], pos: usize) -> (r: Option<(bool, String, usize)>)
    ensures
        match r {
            Some((keyed, name, next)) => dec_head(data@, pos as int) == Some(
                (keyed, name@, next as int),
            ),
            None => dec_head(data@, pos as int) is None,
        },
{
    match read_mark(data, pos, MAP_OF_1) {
        Some(start) => match read_text(data, start) {
            Some((name, next)) => Some((true, name, next)),
            None => None,
        },
        None => match read_text(data, pos) {
            Some((name, next)) => Some((false, name, next)),
            None => None,
        },
    }
}

/// Whether two texts are the same.
pub fn same_text(a: &str, b: &str) -> (r: bool)
    ensures
        r == (a@ == b@),
{
    let x = a.as_bytes();
    let y = b.as_bytes();
    if x.len() != y.len() {
        return false;
    }
    let mut i: usize = 0;
    while i < x.len()
        invariant
            i <= x.len(),
            x.len() == y.len(),
            x@ == encode_utf8(a@),
            y@ == encode_utf8(b@),
            forall|j: int| 0 <= j < i ==> x@[j] == y@[j],
        decreases x.len() - i,
    {
        if x[i] != y[i] {
            return false;
        }
        i += 1;
    }
    proof {
        assert(x@ =~= y@);
        lemma_same_encoding(a@, b@);
    }
    true
}

} // verus!
