//! Word-wise cursor movement (Ctrl+Left / Ctrl+Right).
//!
//! A word is a maximal run of alphanumeric scalars and underscores.

use crate::text::{
    byte_len, byte_length, byte_offset, char_index, lemma_offset_ends, lemma_offset_monotonic,
    lemma_offset_of_char_index, on_boundary,
};
use vstd::prelude::*;

verus! {

/// Whether `char::is_alphanumeric` holds of `c`: the Unicode properties
/// Alphabetic and Number, which are tables of the standard library.
pub uninterp spec fn alphanumeric(c: char) -> bool;

/// `char::is_alphanumeric`: the result depends on the scalar alone and is
/// named by [`alphanumeric`].
#[verifier::external_body]
fn is_alphanumeric(c: char) -> (b: bool)
    ensures
        b == alphanumeric(c),
{
    c.is_alphanumeric()
}

/// `str::char_indices`, collected: one entry per scalar of `s`, in order,
/// holding the byte offset at which the scalar starts and the scalar itself.
#[verifier::external_body]
fn char_indices(s: &str) -> (table: Vec<(usize, char)>)
    ensures
        table@.len() == s@.len(),
        forall|i: int|
            0 <= i < s@.len() ==> (#[trigger] table@[i]).0 == byte_offset(s@, i) && table@[i].1
                == s@[i],
{
    s.char_indices().collect()
}

/// A scalar that belongs to a word: alphanumeric or an underscore.
pub open spec fn word_char(c: char) -> bool {
    alphanumeric(c) || c == '_'
}

/// Whether `c` belongs to a word.
pub fn is_word_char(c: char) -> (b: bool)
    ensures
        b == word_char(c),
{
    is_alphanumeric(c) || c == '_'
}

/// Starting at scalar index `n` and going left, skip the scalars whose
/// word-membership is `word`; the index where the run begins.
pub open spec fn skip_left(text: Seq<char>, n: int, word: bool) -> int
    decreases n,
{
    if n <= 0 || n > text.len() {
        0
    } else if word_char(text[n - 1]) == word {
        skip_left(text, n - 1, word)
    } else {
        n
    }
}

/// Starting at scalar index `n` and going right, skip the scalars whose
/// word-membership is `word`; the index just past the run.
pub open spec fn skip_right(text: Seq<char>, n: int, word: bool) -> int
    decreases text.len() - n,
{
    if n < 0 || n >= text.len() {
        text.len() as int
    } else if word_char(text[n]) == word {
        skip_right(text, n + 1, word)
    } else {
        n
    }
}

/// The scalar index one word to the left of `n`: skip the non-word scalars
/// before `n`, then the word before those, and stop at its start.
pub open spec fn word_left_index(text: Seq<char>, n: int) -> int {
    skip_left(text, skip_left(text, n, false), true)
}

/// The scalar index one word to the right of `n`: skip to the end of the
/// current word, then to the start of the next one (or the end of the text).
pub open spec fn word_right_index(text: Seq<char>, n: int) -> int {
    skip_right(text, skip_right(text, n, true), false)
}

/// Skipping left stays within `0..=n`.
pub proof fn lemma_skip_left_range(text: Seq<char>, n: int, word: bool)
    requires
        0 <= n <= text.len(),
    ensures
        0 <= skip_left(text, n, word) <= n,
    decreases n,
{
    if n > 0 && word_char(text[n - 1]) == word {
        lemma_skip_left_range(text, n - 1, word);
    }
}

/// Skipping right stays within `n..=len`.
pub proof fn lemma_skip_right_range(text: Seq<char>, n: int, word: bool)
    requires
        0 <= n <= text.len(),
    ensures
        n <= skip_right(text, n, word) <= text.len(),
    decreases text.len() - n,
{
    if n < text.len() && word_char(text[n]) == word {
        lemma_skip_right_range(text, n + 1, word);
    }
}

/// A word motion stays inside the text.
pub proof fn lemma_word_index_range(text: Seq<char>, n: int)
    requires
        0 <= n <= text.len(),
    ensures
        0 <= word_left_index(text, n) <= n,
        n <= word_right_index(text, n) <= text.len(),
{
    lemma_skip_left_range(text, n, false);
    lemma_skip_left_range(text, skip_left(text, n, false), true);
    lemma_skip_right_range(text, n, true);
    lemma_skip_right_range(text, skip_right(text, n, true), false);
}

/// The scalar index of byte offset `pos`, found in the offset table of `s`.
fn index_of_offset(s: &str, table: &Vec<(usize, char)>, pos: usize) -> (n: usize)
    requires
        on_boundary(s@, pos as int),
        table@.len() == s@.len(),
        forall|i: int|
            0 <= i < s@.len() ==> (#[trigger] table@[i]).0 == byte_offset(s@, i) && table@[i].1
                == s@[i],
    ensures
        n == char_index(s@, pos as int),
        n <= s@.len(),
{
    let ghost target = char_index(s@, pos as int);
    proof {
        lemma_offset_of_char_index(s@, pos as int);
    }
    let mut i: usize = 0;
    while i < table.len() && table[i].0 < pos
        invariant
            0 <= i <= target <= s@.len(),
            table@.len() == s@.len(),
            byte_offset(s@, target) == pos,
            forall|j: int|
                0 <= j < s@.len() ==> (#[trigger] table@[j]).0 == byte_offset(s@, j),
        decreases table.len() - i,
    {
        proof {
            if i as int == target {
                assert(table@[i as int].0 == byte_offset(s@, i as int));
            }
        }
        i += 1;
    }
    proof {
        if (i as int) < target {
            lemma_offset_monotonic(s@, i as int, target);
            assert(table@[i as int].0 == byte_offset(s@, i as int));
        }
    }
    i
}

/// The byte offset of scalar index `n`, read from the offset table of `s`.
fn offset_of_index(s: &str, table: &Vec<(usize, char)>, n: usize) -> (pos: usize)
    requires
        n <= s@.len(),
        table@.len() == s@.len(),
        forall|i: int|
            0 <= i < s@.len() ==> (#[trigger] table@[i]).0 == byte_offset(s@, i) && table@[i].1
                == s@[i],
    ensures
        pos == byte_offset(s@, n as int),
{
    if n < table.len() {
        table[n].0
    } else {
        proof {
            lemma_offset_ends(s@);
        }
        byte_length(s)
    }
}

/// Move the cursor one word to the left (Ctrl+Left): skip any non-word
/// scalars before `pos`, then the word before them, and stop at its start.
pub fn word_left(s: &str, pos: usize) -> (p: usize)
    requires
        on_boundary(s@, pos as int),
    ensures
        p == byte_offset(s@, word_left_index(s@, char_index(s@, pos as int))),
        p <= pos,
{
    let table = char_indices(s);
    let start = index_of_offset(s, &table, pos);
    let mut k: usize = start;
    while k > 0 && !is_word_char(table[k - 1].1)
        invariant
            0 <= k <= start <= s@.len(),
            table@.len() == s@.len(),
            forall|i: int| 0 <= i < s@.len() ==> (#[trigger] table@[i]).1 == s@[i],
            skip_left(s@, start as int, false) == skip_left(s@, k as int, false),
        decreases k,
    {
        proof {
            assert(table@[k - 1].1 == s@[k - 1]);
        }
        k -= 1;
    }
    proof {
        if k > 0 {
            assert(table@[k - 1].1 == s@[k - 1]);
        }
    }
    let ghost mid = k;
    while k > 0 && is_word_char(table[k - 1].1)
        invariant
            0 <= k <= mid <= s@.len(),
            table@.len() == s@.len(),
            forall|i: int| 0 <= i < s@.len() ==> (#[trigger] table@[i]).1 == s@[i],
            skip_left(s@, mid as int, true) == skip_left(s@, k as int, true),
        decreases k,
    {
        proof {
            assert(table@[k - 1].1 == s@[k - 1]);
        }
        k -= 1;
    }
    proof {
        if k > 0 {
            assert(table@[k - 1].1 == s@[k - 1]);
        }
        lemma_offset_of_char_index(s@, pos as int);
        lemma_offset_monotonic(s@, k as int, start as int);
    }
    offset_of_index(s, &table, k)
}

/// Move the cursor one word to the right (Ctrl+Right): skip to the end of the
/// current word, then to the start of the next word or the end of the text.
pub fn word_right(s: &str, pos: usize) -> (p: usize)
    requires
        on_boundary(s@, pos as int),
    ensures
        p == byte_offset(s@, word_right_index(s@, char_index(s@, pos as int))),
        pos <= p <= byte_len(s@),
{
    let table = char_indices(s);
    let start = index_of_offset(s, &table, pos);
    let len = table.len();
    let mut k: usize = start;
    while k < len && is_word_char(table[k].1)
        invariant
            start <= k <= len == s@.len(),
            table@.len() == s@.len(),
            forall|i: int| 0 <= i < s@.len() ==> (#[trigger] table@[i]).1 == s@[i],
            skip_right(s@, start as int, true) == skip_right(s@, k as int, true),
        decreases len - k,
    {
        proof {
            assert(table@[k as int].1 == s@[k as int]);
        }
        k += 1;
    }
    proof {
        if k < len {
            assert(table@[k as int].1 == s@[k as int]);
        }
    }
    let ghost mid = k;
    while k < len && !is_word_char(table[k].1)
        invariant
            mid <= k <= len == s@.len(),
            table@.len() == s@.len(),
            forall|i: int| 0 <= i < s@.len() ==> (#[trigger] table@[i]).1 == s@[i],
            skip_right(s@, mid as int, false) == skip_right(s@, k as int, false),
        decreases len - k,
    {
        proof {
            assert(table@[k as int].1 == s@[k as int]);
        }
        k += 1;
    }
    proof {
        if k < len {
            assert(table@[k as int].1 == s@[k as int]);
        }
        lemma_offset_of_char_index(s@, pos as int);
        lemma_offset_monotonic(s@, start as int, k as int);
        lemma_offset_monotonic(s@, k as int, s@.len() as int);
        lemma_offset_ends(s@);
    }
    offset_of_index(s, &table, k)
}

} // verus!
