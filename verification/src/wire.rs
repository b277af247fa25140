//! Little-endian words inside a byte region.
//!
//! The trace buffer is written by instrumented code as packed C records on a
//! little-endian machine. Everything the library reads from or writes to the
//! buffer goes through the two functions here, one byte at a time, so the
//! layout never depends on how the compiler would lay out a struct.

use vstd::prelude::*;

verus! {

/// The 64-bit word whose little-endian bytes are `s[at]`, ..., `s[at + 7]`.
pub open spec fn le_word(s: Seq<u8>, at: int) -> u64 {
    (s[at] as u64)
        | (s[at + 1] as u64) << 8
        | (s[at + 2] as u64) << 16
        | (s[at + 3] as u64) << 24
        | (s[at + 4] as u64) << 32
        | (s[at + 5] as u64) << 40
        | (s[at + 6] as u64) << 48
        | (s[at + 7] as u64) << 56
}

/// Byte `k` (0 is the least significant) of the word `w`.
pub open spec fn word_byte(w: u64, k: int) -> u8 {
    if k == 0 {
        (w & 0xff) as u8
    } else if k == 1 {
        ((w >> 8) & 0xff) as u8
    } else if k == 2 {
        ((w >> 16) & 0xff) as u8
    } else if k == 3 {
        ((w >> 24) & 0xff) as u8
    } else if k == 4 {
        ((w >> 32) & 0xff) as u8
    } else if k == 5 {
        ((w >> 40) & 0xff) as u8
    } else if k == 6 {
        ((w >> 48) & 0xff) as u8
    } else {
        ((w >> 56) & 0xff) as u8
    }
}

/// `s` with the eight bytes from `at` on replaced by the little-endian bytes of `w`.
pub open spec fn with_le_word(s: Seq<u8>, at: int, w: u64) -> Seq<u8> {
    Seq::new(s.len(), |k: int| if at <= k < at + 8 { word_byte(w, k - at) } else { s[k] })
}

/// A word is the little-endian reading of its own bytes.
pub proof fn lemma_word_of_bytes(w: u64)
    ensures
        (word_byte(w, 0) as u64)
            | (word_byte(w, 1) as u64) << 8
            | (word_byte(w, 2) as u64) << 16
            | (word_byte(w, 3) as u64) << 24
            | (word_byte(w, 4) as u64) << 32
            | (word_byte(w, 5) as u64) << 40
            | (word_byte(w, 6) as u64) << 48
            | (word_byte(w, 7) as u64) << 56 == w,
{
    assert(((w & 0xff) as u8 as u64)
        | (((w >> 8) & 0xff) as u8 as u64) << 8
        | (((w >> 16) & 0xff) as u8 as u64) << 16
        | (((w >> 24) & 0xff) as u8 as u64) << 24
        | (((w >> 32) & 0xff) as u8 as u64) << 32
        | (((w >> 40) & 0xff) as u8 as u64) << 40
        | (((w >> 48) & 0xff) as u8 as u64) << 48
        | (((w >> 56) & 0xff) as u8 as u64) << 56 == w) by (bit_vector);
}

/// Reading back a word that was just written gives that word.
pub proof fn lemma_read_after_write(s: Seq<u8>, at: int, w: u64)
    requires
        0 <= at,
        at + 8 <= s.len(),
    ensures
        le_word(with_le_word(s, at, w), at) == w,
{
    lemma_word_of_bytes(w);
}

/// Bytes of a word read from a region are the region's bytes.
pub proof fn lemma_bytes_of_word(b0: u8, b1: u8, b2: u8, b3: u8, b4: u8, b5: u8, b6: u8, b7: u8)
    ensures
        ({
            let w = (b0 as u64)
                | (b1 as u64) << 8
                | (b2 as u64) << 16
                | (b3 as u64) << 24
                | (b4 as u64) << 32
                | (b5 as u64) << 40
                | (b6 as u64) << 48
                | (b7 as u64) << 56;
            &&& word_byte(w, 0) == b0
            &&& word_byte(w, 1) == b1
            &&& word_byte(w, 2) == b2
            &&& word_byte(w, 3) == b3
            &&& word_byte(w, 4) == b4
            &&& word_byte(w, 5) == b5
            &&& word_byte(w, 6) == b6
            &&& word_byte(w, 7) == b7
        }),
{
    let w = (b0 as u64)
        | (b1 as u64) << 8
        | (b2 as u64) << 16
        | (b3 as u64) << 24
        | (b4 as u64) << 32
        | (b5 as u64) << 40
        | (b6 as u64) << 48
        | (b7 as u64) << 56;
    assert({
        &&& (w & 0xff) as u8 == b0
        &&& ((w >> 8) & 0xff) as u8 == b1
        &&& ((w >> 16) & 0xff) as u8 == b2
        &&& ((w >> 24) & 0xff) as u8 == b3
        &&& ((w >> 32) & 0xff) as u8 == b4
        &&& ((w >> 40) & 0xff) as u8 == b5
        &&& ((w >> 48) & 0xff) as u8 == b6
        &&& ((w >> 56) & 0xff) as u8 == b7
    }) by (bit_vector)
        requires
            w == (b0 as u64)
                | (b1 as u64) << 8
                | (b2 as u64) << 16
                | (b3 as u64) << 24
                | (b4 as u64) << 32
                | (b5 as u64) << 40
                | (b6 as u64) << 48
                | (b7 as u64) << 56,
    ;
}

/// Reads the little-endian word at `at`.
pub(crate) fn read_word(buf: &[u8], at: usize) -> (w: u64)
    requires
        at + 8 <= buf@.len(),
    ensures
        w == le_word(buf@, at as int),
{
    (buf[at] as u64)
        | (buf[at + 1] as u64) << 8
        | (buf[at + 2] as u64) << 16
        | (buf[at + 3] as u64) << 24
        | (buf[at + 4] as u64) << 32
        | (buf[at + 5] as u64) << 40
        | (buf[at + 6] as u64) << 48
        | (buf[at + 7] as u64) << 56
}

/// The eight little-endian bytes of `w`.
pub(crate) fn word_bytes(w: u64) -> (b: [u8; 8])
    ensures
        forall|k: int| 0 <= k < 8 ==> b@[k] == word_byte(w, k),
    no_unwind
{
    assert({
        &&& w & 0xff < 256
        &&& (w >> 8) & 0xff < 256
        &&& (w >> 16) & 0xff < 256
        &&& (w >> 24) & 0xff < 256
        &&& (w >> 32) & 0xff < 256
        &&& (w >> 40) & 0xff < 256
        &&& (w >> 48) & 0xff < 256
        &&& (w >> 56) & 0xff < 256
    }) by (bit_vector);
    [
        (w & 0xff) as u8,
        ((w >> 8) & 0xff) as u8,
        ((w >> 16) & 0xff) as u8,
        ((w >> 24) & 0xff) as u8,
        ((w >> 32) & 0xff) as u8,
        ((w >> 40) & 0xff) as u8,
        ((w >> 48) & 0xff) as u8,
        ((w >> 56) & 0xff) as u8,
    ]
}

/// Writes `w` as eight little-endian bytes at `at`.
pub(crate) fn write_word(buf: &mut [u8], at: usize, w: u64)
    requires
        at + 8 <= old(buf)@.len(),
        at + 8 <= usize::MAX,
    ensures
        final(buf)@ == with_le_word(old(buf)@, at as int, w),
    no_unwind
{
    let b = word_bytes(w);
    let mut k: usize = 0;
    while k < 8
        invariant
            k <= 8,
            at + 8 <= usize::MAX,
            at + 8 <= buf@.len(),
            buf@.len() == old(buf)@.len(),
            forall|i: int| 0 <= i < 8 ==> b@[i] == word_byte(w, i),
            forall|i: int|
                0 <= i < buf@.len() ==> buf@[i] == if at <= i < at + k {
                    word_byte(w, i - at)
                } else {
                    old(buf)@[i]
                },
        decreases 8 - k,
    {
        buf[at + k] = b[k];
        k = k + 1;
    }
    assert(buf@ =~= with_le_word(old(buf)@, at as int, w));
}

} // verus!
