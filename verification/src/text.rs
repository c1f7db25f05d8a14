//! Byte offsets and scalar indices in UTF-8 text.
//!
//! A text is modelled as its sequence of Unicode scalars (`Seq<char>`). The
//! executable code addresses it by byte offsets; the lemmas here relate the
//! two: every scalar index has a byte offset, and the byte offsets of scalar
//! indices are exactly the character boundaries of the encoded text.

use vstd::prelude::*;
use vstd::utf8::*;

verus! {

/// The byte offset at which the scalar with index `n` starts in the UTF-8
/// encoding of `text` (the encoded length of the first `n` scalars).
pub open spec fn byte_offset(text: Seq<char>, n: int) -> int {
    encode_utf8(text.take(n)).len() as int
}

/// The number of scalars encoded before byte offset `pos` of `text`.
pub open spec fn char_index(text: Seq<char>, pos: int) -> int {
    decode_utf8(encode_utf8(text).subrange(0, pos)).len() as int
}

/// `pos` lies on a scalar boundary of `text` (its start and end included).
pub open spec fn on_boundary(text: Seq<char>, pos: int) -> bool {
    is_char_boundary(encode_utf8(text), pos)
}

/// The encoded length of `text` in bytes.
pub open spec fn byte_len(text: Seq<char>) -> int {
    encode_utf8(text).len() as int
}

/// Encoding distributes over concatenation.
pub proof fn lemma_encode_concat(a: Seq<char>, b: Seq<char>)
    ensures
        encode_utf8(a + b) == encode_utf8(a) + encode_utf8(b),
    decreases a.len(),
{
    if a.len() == 0 {
        assert(a + b =~= b);
        assert(encode_utf8(a) + encode_utf8(b) =~= encode_utf8(b));
    } else {
        assert((a + b).drop_first() =~= a.drop_first() + b);
        lemma_encode_concat(a.drop_first(), b);
        assert(encode_utf8(a + b) =~= encode_utf8(a) + encode_utf8(b));
    }
}

/// A single scalar takes between one and four bytes.
pub proof fn lemma_scalar_width(c: char)
    ensures
        1 <= encode_scalar(c as u32).len() <= 4,
        encode_utf8(seq![c]) == encode_scalar(c as u32),
{
    let s = seq![c];
    assert(s.drop_first() =~= Seq::<char>::empty());
    assert(encode_utf8(s.drop_first()) =~= Seq::<u8>::empty());
    assert(encode_utf8(s) =~= encode_scalar(c as u32));
}

/// Splitting a text at scalar index `n` splits its encoding at `byte_offset(text, n)`.
pub proof fn lemma_encode_split(text: Seq<char>, n: int)
    requires
        0 <= n <= text.len(),
    ensures
        encode_utf8(text) == encode_utf8(text.take(n)) + encode_utf8(text.skip(n)),
        0 <= byte_offset(text, n) <= byte_len(text),
        encode_utf8(text).subrange(0, byte_offset(text, n)) == encode_utf8(text.take(n)),
        encode_utf8(text).subrange(byte_offset(text, n), byte_len(text)) == encode_utf8(
            text.skip(n),
        ),
{
    assert(text =~= text.take(n) + text.skip(n));
    lemma_encode_concat(text.take(n), text.skip(n));
    let a = encode_utf8(text.take(n));
    let b = encode_utf8(text.skip(n));
    assert((a + b).subrange(0, a.len() as int) =~= a);
    assert((a + b).subrange(a.len() as int, (a + b).len() as int) =~= b);
}

/// The seam of two well-formed encodings is a character boundary of their
/// concatenation.
pub proof fn lemma_concat_boundary(x: Seq<u8>, y: Seq<u8>)
    requires
        valid_utf8(x),
        valid_utf8(y),
    ensures
        valid_utf8(x + y),
        is_char_boundary(x + y, x.len() as int),
    decreases x.len(),
{
    valid_utf8_concat(x, y);
    if x.len() == 0 {
    } else {
        let rest = pop_first_scalar(x);
        assert(valid_first_scalar(x));
        assert(valid_utf8(rest));
        assert((x + y)[0] == x[0]);
        assert(length_of_first_scalar(x + y) == length_of_first_scalar(x));
        assert(length_of_first_scalar(x) <= x.len());
        assert(pop_first_scalar(x + y) =~= rest + y);
        lemma_concat_boundary(rest, y);
        assert(rest.len() == x.len() - length_of_first_scalar(x));
    }
}

/// The byte offset of every scalar index is a character boundary.
pub proof fn lemma_offset_is_boundary(text: Seq<char>, n: int)
    requires
        0 <= n <= text.len(),
    ensures
        on_boundary(text, byte_offset(text, n)),
        0 <= byte_offset(text, n) <= byte_len(text),
{
    lemma_encode_split(text, n);
    encode_utf8_valid_utf8(text.take(n));
    encode_utf8_valid_utf8(text.skip(n));
    lemma_concat_boundary(encode_utf8(text.take(n)), encode_utf8(text.skip(n)));
}

/// `char_index` inverts `byte_offset`.
pub proof fn lemma_char_index_of_offset(text: Seq<char>, n: int)
    requires
        0 <= n <= text.len(),
    ensures
        char_index(text, byte_offset(text, n)) == n,
{
    lemma_encode_split(text, n);
    encode_utf8_decode_utf8(text.take(n));
}

/// Every character boundary is the byte offset of a scalar index, namely of
/// `char_index(text, pos)`.
pub proof fn lemma_offset_of_char_index(text: Seq<char>, pos: int)
    requires
        on_boundary(text, pos),
    ensures
        0 <= char_index(text, pos) <= text.len(),
        byte_offset(text, char_index(text, pos)) == pos,
        0 <= pos <= byte_len(text),
{
    let bytes = encode_utf8(text);
    encode_utf8_valid_utf8(text);
    lemma_boundary_in_range(bytes, pos);
    valid_utf8_split(bytes, pos);
    decode_utf8_split(bytes, pos);
    encode_utf8_decode_utf8(text);
    let a = bytes.subrange(0, pos);
    let b = bytes.subrange(pos, bytes.len() as int);
    let n = decode_utf8(a).len() as int;
    assert(text == decode_utf8(a) + decode_utf8(b));
    assert(text.take(n) =~= decode_utf8(a));
    decode_utf8_encode_utf8(a);
}

/// A character boundary lies within the encoding.
pub proof fn lemma_boundary_in_range(bytes: Seq<u8>, pos: int)
    requires
        valid_utf8(bytes),
        is_char_boundary(bytes, pos),
    ensures
        0 <= pos <= bytes.len(),
{
}

/// Moving one scalar to the right advances the byte offset by that scalar's width.
pub proof fn lemma_offset_step(text: Seq<char>, n: int)
    requires
        0 <= n < text.len(),
    ensures
        byte_offset(text, n + 1) == byte_offset(text, n) + encode_scalar(text[n] as u32).len(),
        byte_offset(text, n) < byte_offset(text, n + 1) <= byte_offset(text, n) + 4,
{
    assert(text.take(n + 1) =~= text.take(n) + seq![text[n]]);
    lemma_encode_concat(text.take(n), seq![text[n]]);
    lemma_scalar_width(text[n]);
}

/// Byte offsets grow with scalar indices.
pub proof fn lemma_offset_monotonic(text: Seq<char>, m: int, n: int)
    requires
        0 <= m <= n <= text.len(),
    ensures
        byte_offset(text, m) <= byte_offset(text, n),
        m < n ==> byte_offset(text, m) < byte_offset(text, n),
    decreases n - m,
{
    if m < n {
        lemma_offset_monotonic(text, m, n - 1);
        lemma_offset_step(text, n - 1);
    }
}

/// The ends of a text are the byte offsets of its first and last scalar index.
pub proof fn lemma_offset_ends(text: Seq<char>)
    ensures
        byte_offset(text, 0) == 0,
        byte_offset(text, text.len() as int) == byte_len(text),
{
    assert(text.take(0) =~= Seq::<char>::empty());
    assert(text.take(text.len() as int) =~= text);
}

/// `p` is the last character boundary strictly before `pos` (0 when `pos` is 0).
pub open spec fn is_prev_boundary(text: Seq<char>, pos: int, p: int) -> bool {
    if pos <= 0 {
        p == 0
    } else {
        &&& 0 <= p < pos
        &&& on_boundary(text, p)
        &&& forall|q: int| p < q < pos ==> !on_boundary(text, q)
    }
}

/// `p` is the first character boundary strictly after `pos` (the end of the
/// text when `pos` is at or past it).
pub open spec fn is_next_boundary(text: Seq<char>, pos: int, p: int) -> bool {
    if pos >= byte_len(text) {
        p == byte_len(text)
    } else {
        &&& pos < p <= byte_len(text)
        &&& on_boundary(text, p)
        &&& forall|q: int| pos < q < p ==> !on_boundary(text, q)
    }
}

/// The boundary before the offset of scalar `n` is the offset of scalar `n - 1`.
pub proof fn lemma_prev_boundary_is_prev_scalar(text: Seq<char>, n: int, p: int)
    requires
        0 < n <= text.len(),
        is_prev_boundary(text, byte_offset(text, n), p),
    ensures
        p == byte_offset(text, n - 1),
{
    lemma_offset_monotonic(text, 0, n);
    lemma_offset_ends(text);
    lemma_offset_of_char_index(text, p);
    let m = char_index(text, p);
    if m >= n {
        lemma_offset_monotonic(text, n, m);
    } else if m < n - 1 {
        lemma_offset_monotonic(text, m, n - 1);
        lemma_offset_monotonic(text, n - 1, n);
        lemma_offset_is_boundary(text, n - 1);
    }
}

/// The boundary after the offset of scalar `n` is the offset of scalar `n + 1`.
pub proof fn lemma_next_boundary_is_next_scalar(text: Seq<char>, n: int, p: int)
    requires
        0 <= n < text.len(),
        is_next_boundary(text, byte_offset(text, n), p),
    ensures
        p == byte_offset(text, n + 1),
{
    lemma_offset_monotonic(text, n, text.len() as int);
    lemma_offset_ends(text);
    lemma_offset_of_char_index(text, p);
    let m = char_index(text, p);
    if m <= n {
        lemma_offset_monotonic(text, m, n);
    } else if m > n + 1 {
        lemma_offset_monotonic(text, n + 1, m);
        lemma_offset_monotonic(text, n, n + 1);
        lemma_offset_is_boundary(text, n + 1);
    }
}

/// `String::push`: the scalar is added at the end of the text.
pub assume_specification[ String::push ](s: &mut String, ch: char)
    ensures
        final(s)@ == old(s)@.push(ch),
;

/// The text of the one scalar `c`.
pub fn scalar_text(c: char) -> (r: String)
    ensures
        r@ == seq![c],
{
    let mut r = String::new();
    r.push(c);
    assert(r@ =~= seq![c]);
    r
}

/// The length of `s` in bytes.
pub fn byte_length(s: &str) -> (n: usize)
    ensures
        n == byte_len(s@),
{
    broadcast use vstd::slice::group_slice_axioms;

    s.as_bytes().len()
}

/// Return the byte offset of the start of the Unicode scalar before `pos`,
/// or 0 if `pos` is already at the start.
pub fn prev_char_boundary(s: &str, pos: usize) -> (p: usize)
    ensures
        is_prev_boundary(s@, pos as int, p as int),
{
    proof {
        encode_utf8_valid_utf8(s@);
    }
    if pos == 0 {
        return 0;
    }
    let mut p: usize = pos - 1;
    while p > 0 && !s.is_char_boundary(p)
        invariant
            p < pos,
            valid_utf8(encode_utf8(s@)),
            forall|q: int| p < q < pos ==> !on_boundary(s@, q),
        decreases p,
    {
        p -= 1;
    }
    p
}

/// Return the byte offset just after the Unicode scalar starting at `pos`,
/// or the length of `s` if `pos` is at or past the end.
pub fn next_char_boundary(s: &str, pos: usize) -> (p: usize)
    ensures
        is_next_boundary(s@, pos as int, p as int),
{
    proof {
        encode_utf8_valid_utf8(s@);
        is_char_boundary_start_end_of_seq(encode_utf8(s@));
    }
    let len = byte_length(s);
    if pos >= len {
        return len;
    }
    let mut p: usize = pos + 1;
    while p < len && !s.is_char_boundary(p)
        invariant
            pos < p <= len,
            len == byte_len(s@),
            on_boundary(s@, len as int),
            forall|q: int| pos < q < p ==> !on_boundary(s@, q),
        decreases len - p,
    {
        p += 1;
    }
    p
}

} // verus!
