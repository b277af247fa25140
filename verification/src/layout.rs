//! The layout of the trace buffer, and what its bytes mean.
//!
//! The buffer that the instrumented target fills has two parts. First come
//! the headers, one packed 8-byte record per comparison site. Then comes the
//! log: 1024 bytes per site, which hold either up to 32 integer entries of 32
//! bytes (four little-endian words: the two operands, then the upper halves of
//! the two operands for 128-bit comparisons), or up to 8 routine entries of 64
//! bytes (two operands of 31 content bytes, each followed by its length byte).
//!
//! This module says, over plain sequences of bytes, what a buffer decodes to
//! and what writing an entry does to it, and proves that what was written
//! decodes to itself.

use vstd::prelude::*;
use crate::header::{AFLppCmpLogHeader, header_in, CMPLOG_KIND_INS, CMPLOG_KIND_RTN};
use crate::values::{CmpValuesView, low_word};
use crate::wire::{le_word, with_le_word, lemma_word_of_bytes};

verus! {

/// Number of comparison sites in the map that the instrumentation ships with.
pub const CMPLOG_MAP_W: usize = 65536;

/// Depth of the log of a site that compares integers.
pub const CMPLOG_MAP_H: usize = 32;

/// Depth of the log of a site that compares byte strings.
pub const CMPLOG_MAP_RTN_H: usize = 8;

/// Most content bytes that one operand of a routine entry can hold.
pub const CMPLOG_RTN_LEN: usize = 31;

/// Bytes that one site takes in the buffer: its header and its log.
pub const CMPLOG_SITE_BYTES: usize = 1032;

/// Where the log entry `execution` of an integer site `idx` starts, in a map of `width` sites.
pub open spec fn entry_at(width: int, idx: int, execution: int) -> int {
    8 * width + 1024 * idx + 32 * execution
}

/// Where the log entry `execution` of a routine site `idx` starts, in a map of `width` sites.
pub open spec fn rtn_entry_at(width: int, idx: int, execution: int) -> int {
    8 * width + 1024 * idx + 64 * execution
}

/// Depth of the log of a site of the given kind.
pub open spec fn log_depth(kind: u8) -> int {
    if kind == CMPLOG_KIND_INS {
        32
    } else {
        8
    }
}

/// How many entries of a site with header `h` hold a recorded comparison:
/// `hits`, but no more than the log is deep.
pub open spec fn recorded(h: AFLppCmpLogHeader) -> int {
    if h.hits < log_depth(h.kind) {
        h.hits as int
    } else {
        log_depth(h.kind)
    }
}

/// The 128-bit integer with upper half `hi` and lower half `lo`.
pub open spec fn wide(hi: u64, lo: u64) -> u128 {
    (hi as u128) << 64 | (lo as u128)
}

/// The operands of an integer entry whose four words are `v0`, `v1`, `v0_hi`
/// and `v1_hi`, at the width that `shape` names (the width in bytes, minus one).
pub open spec fn decode_integers(shape: u8, v0: u64, v1: u64, v0_hi: u64, v1_hi: u64) -> Option<
    CmpValuesView,
> {
    if shape == 0 {
        Some(CmpValuesView::U8((v0 & 0xff) as u8, (v1 & 0xff) as u8))
    } else if shape == 1 {
        Some(CmpValuesView::U16((v0 & 0xffff) as u16, (v1 & 0xffff) as u16))
    } else if shape == 3 {
        Some(CmpValuesView::U32((v0 & 0xffff_ffff) as u32, (v1 & 0xffff_ffff) as u32))
    } else if shape == 7 {
        Some(CmpValuesView::U64(v0, v1))
    } else if shape == 15 {
        Some(CmpValuesView::U128(wide(v0_hi, v0), wide(v1_hi, v1)))
    } else {
        None
    }
}

/// The number of content bytes that the length byte `b` stands for. Its top
/// bit is a marker of the instrumentation and no part of the length.
pub open spec fn operand_len(b: u8) -> int {
    (b & 0x7f) as int
}

/// One operand of a routine entry: 31 content bytes from `at` on, then the
/// length byte. A length over 31 cannot be decoded.
pub open spec fn decode_operand(s: Seq<u8>, at: int) -> Option<Seq<u8>> {
    if operand_len(s[at + 31]) <= 31 {
        Some(s.subrange(at, at + operand_len(s[at + 31])))
    } else {
        None
    }
}

/// The routine entry that starts at `at`.
pub open spec fn decode_routine(s: Seq<u8>, at: int) -> Option<CmpValuesView> {
    match (decode_operand(s, at), decode_operand(s, at + 32)) {
        (Some(a), Some(b)) => Some(CmpValuesView::Bytes(a, b)),
        _ => None,
    }
}

/// What entry `execution` of site `idx` decodes to, in a buffer `s` of
/// `width` sites: nothing past the recorded entries, nothing for a kind or a
/// shape that is not known.
pub open spec fn decode_entry(s: Seq<u8>, width: int, idx: int, execution: int) -> Option<
    CmpValuesView,
> {
    let h = header_in(s, 8 * idx);
    if execution >= recorded(h) {
        None
    } else if h.kind == CMPLOG_KIND_INS {
        let at = entry_at(width, idx, execution);
        decode_integers(h.shape, le_word(s, at), le_word(s, at + 8), le_word(s, at + 16), le_word(s, at + 24))
    } else if h.kind == CMPLOG_KIND_RTN {
        decode_routine(s, rtn_entry_at(width, idx, execution))
    } else {
        None
    }
}

/// The values that the first `n` entries of site `idx` decode to, in order;
/// entries that decode to nothing are left out.
pub open spec fn decode_prefix(s: Seq<u8>, width: int, idx: int, n: nat) -> Seq<CmpValuesView>
    decreases n,
{
    if n == 0 {
        Seq::empty()
    } else {
        match decode_entry(s, width, idx, n - 1) {
            Some(v) => decode_prefix(s, width, idx, (n - 1) as nat).push(v),
            None => decode_prefix(s, width, idx, (n - 1) as nat),
        }
    }
}

/// The buffer `s` is as long as a map of `width` sites, and `idx` is one of its sites.
pub open spec fn site_in(s: Seq<u8>, width: int, idx: int) -> bool {
    s.len() == 1032 * width && 0 <= idx < width
}

/// Recorded entries of site `idx` in the buffer `s`; none where `s` is no
/// map of `width` sites or has no such site.
pub open spec fn recorded_in(s: Seq<u8>, width: int, idx: int) -> int {
    if site_in(s, width, idx) {
        recorded(header_in(s, 8 * idx))
    } else {
        0
    }
}

/// What entry `execution` of site `idx` decodes to in the buffer `s`;
/// nothing where `s` is no map of `width` sites or has no such site.
pub open spec fn value_in(s: Seq<u8>, width: int, idx: int, execution: int) -> Option<CmpValuesView> {
    if site_in(s, width, idx) {
        decode_entry(s, width, idx, execution)
    } else {
        None
    }
}

/// `s` with its first `n` bytes set to zero.
pub open spec fn with_zeros(s: Seq<u8>, n: int) -> Seq<u8> {
    Seq::new(s.len(), |k: int| if k < n { 0u8 } else { s[k] })
}

/// The buffer `s` of a map of `width` sites after a reset: every header byte
/// is zero, the log is as it was.
pub open spec fn cleared(s: Seq<u8>, width: int) -> Seq<u8> {
    with_zeros(s, 8 * width)
}

/// The kind of site that records `v`.
pub open spec fn kind_of(v: CmpValuesView) -> u8 {
    if v is Bytes {
        CMPLOG_KIND_RTN
    } else {
        CMPLOG_KIND_INS
    }
}

/// The shape that names the width of `v`: its width in bytes, minus one.
/// Routine entries carry their lengths themselves; their shape is 0 here.
pub open spec fn shape_of(v: CmpValuesView) -> u8 {
    match v {
        CmpValuesView::U8(_, _) => 0,
        CmpValuesView::U16(_, _) => 1,
        CmpValuesView::U32(_, _) => 3,
        CmpValuesView::U64(_, _) => 7,
        CmpValuesView::U128(_, _) => 15,
        CmpValuesView::Bytes(_, _) => 0,
    }
}

/// The upper 64 bits of `x`.
pub open spec fn high_word(x: u128) -> u64 {
    (x >> 64) as u64
}

/// The four words of the integer entry that records `v`: first operand,
/// second operand, and their upper halves.
pub open spec fn entry_words(v: CmpValuesView) -> (u64, u64, u64, u64) {
    match v {
        CmpValuesView::U8(a, b) => (a as u64, b as u64, 0, 0),
        CmpValuesView::U16(a, b) => (a as u64, b as u64, 0, 0),
        CmpValuesView::U32(a, b) => (a as u64, b as u64, 0, 0),
        CmpValuesView::U64(a, b) => (a, b, 0, 0),
        CmpValuesView::U128(a, b) => (low_word(a), low_word(b), high_word(a), high_word(b)),
        CmpValuesView::Bytes(_, _) => (0, 0, 0, 0),
    }
}

/// `s` with the integer entry at `at` holding the four words `w`.
pub open spec fn with_integers(s: Seq<u8>, at: int, w: (u64, u64, u64, u64)) -> Seq<u8> {
    let one = with_le_word(s, at, w.0);
    let two = with_le_word(one, at + 8, w.1);
    let three = with_le_word(two, at + 16, w.2);
    with_le_word(three, at + 24, w.3)
}

/// `s` with the routine operand at `at` holding `a`: its bytes, zeros up to
/// 31 content bytes, then the length.
pub open spec fn with_operand(s: Seq<u8>, at: int, a: Seq<u8>) -> Seq<u8> {
    Seq::new(
        s.len(),
        |k: int|
            if at <= k < at + 31 {
                if k - at < a.len() {
                    a[k - at]
                } else {
                    0u8
                }
            } else if k == at + 31 {
                a.len() as u8
            } else {
                s[k]
            },
    )
}

/// `s` with entry `execution` of site `idx` recording `v`.
pub open spec fn with_entry(s: Seq<u8>, width: int, idx: int, execution: int, v: CmpValuesView) -> Seq<
    u8,
> {
    match v {
        CmpValuesView::Bytes(a, b) => with_operand(
            with_operand(s, rtn_entry_at(width, idx, execution), a),
            rtn_entry_at(width, idx, execution) + 32,
            b,
        ),
        _ => with_integers(s, entry_at(width, idx, execution), entry_words(v)),
    }
}

/// The header `h` is that of a site that records values such as `v`: it has
/// the kind of `v` and, for integers, the shape of `v`.
pub open spec fn header_fits_value(h: AFLppCmpLogHeader, v: CmpValuesView) -> bool {
    h.kind == kind_of(v) && (v.is_numeric() ==> h.shape == shape_of(v))
}

/// Entry `execution` of a site can record `v`: the entry lies within the log
/// of such a site, and a byte string has no more than 31 bytes.
pub open spec fn entry_holds(v: CmpValuesView, execution: int) -> bool {
    &&& 0 <= execution < log_depth(kind_of(v))
    &&& v matches CmpValuesView::Bytes(a, b) ==> a.len() <= 31 && b.len() <= 31
}

/// After a reset the header of every site is the empty one.
pub proof fn lemma_cleared_header(s: Seq<u8>, width: int, idx: int)
    requires
        0 <= idx < width,
        8 * width <= s.len(),
    ensures
        header_in(cleared(s, width), 8 * idx) == AFLppCmpLogHeader::empty(),
{
    let z: u8 = 0;
    assert((z as u64)
        | (z as u64) << 8
        | (z as u64) << 16
        | (z as u64) << 24
        | (z as u64) << 32
        | (z as u64) << 40
        | (z as u64) << 48
        | (z as u64) << 56 == 0) by (bit_vector)
        requires
            z == 0,
    ;
    let w: u64 = 0;
    assert({
        &&& w & 0xff_ffff == 0
        &&& (w >> 24) & 0xff_ffff == 0
        &&& (w >> 48) & 0x1f == 0
        &&& (w >> 53) & 0x3 == 0
        &&& (w >> 55) & 0xf == 0
        &&& (w >> 59) & 0x1 == 0
        &&& (w >> 60) & 0xf == 0
    }) by (bit_vector)
        requires
            w == 0,
    ;
}

/// The four words that record an integer pair decode to that pair, at every width.
pub proof fn lemma_integers_round_trip(v: CmpValuesView)
    requires
        v.is_numeric(),
    ensures
        decode_integers(
            shape_of(v),
            entry_words(v).0,
            entry_words(v).1,
            entry_words(v).2,
            entry_words(v).3,
        ) == Some(v),
{
    match v {
        CmpValuesView::U8(a, b) => {
            assert((a as u64 & 0xff) as u8 == a && (b as u64 & 0xff) as u8 == b) by (bit_vector);
        },
        CmpValuesView::U16(a, b) => {
            assert((a as u64 & 0xffff) as u16 == a && (b as u64 & 0xffff) as u16 == b)
                by (bit_vector);
        },
        CmpValuesView::U32(a, b) => {
            assert((a as u64 & 0xffff_ffff) as u32 == a && (b as u64 & 0xffff_ffff) as u32 == b)
                by (bit_vector);
        },
        CmpValuesView::U64(a, b) => {},
        CmpValuesView::U128(a, b) => {
            assert({
                &&& ((a >> 64) as u64 as u128) << 64 | ((a & 0xffff_ffff_ffff_ffff) as u64 as u128) == a
                &&& ((b >> 64) as u64 as u128) << 64 | ((b & 0xffff_ffff_ffff_ffff) as u64 as u128) == b
            }) by (bit_vector);
        },
        CmpValuesView::Bytes(_, _) => {},
    }
}

/// A byte string of up to 31 bytes that was written as an operand decodes to itself.
pub proof fn lemma_operand_round_trip(s: Seq<u8>, at: int, a: Seq<u8>)
    requires
        0 <= at,
        at + 32 <= s.len(),
        a.len() <= 31,
    ensures
        decode_operand(with_operand(s, at, a), at) == Some(a),
{
    let n: u8 = a.len() as u8;
    assert(n & 0x7f == n) by (bit_vector)
        requires
            n <= 31,
    ;
    let t = with_operand(s, at, a);
    assert(t[at + 31] == n);
    assert(t.subrange(at, at + a.len()) =~= a);
}

/// Writing an entry leaves every header as it was.
pub proof fn lemma_entry_keeps_headers(s: Seq<u8>, width: int, idx: int, execution: int, v: CmpValuesView)
    requires
        s.len() == 1032 * width,
        0 <= idx < width,
        0 <= execution,
    ensures
        forall|i: int|
            0 <= i < width ==> #[trigger] header_in(with_entry(s, width, idx, execution, v), 8 * i)
                == header_in(s, 8 * i),
{
    let t = with_entry(s, width, idx, execution, v);
    assert forall|i: int| 0 <= i < width implies #[trigger] header_in(t, 8 * i) == header_in(
        s,
        8 * i,
    ) by {
        assert(le_word(t, 8 * i) == le_word(s, 8 * i));
    }
}

/// An entry that was written decodes to what was written: for integer pairs
/// of every width and for byte strings of up to 31 bytes, provided the header
/// of the site names the kind and, for integers, the shape of the value, and
/// counts the entry among the recorded ones.
pub proof fn lemma_entry_round_trip(s: Seq<u8>, width: int, idx: int, execution: int, v: CmpValuesView)
    requires
        s.len() == 1032 * width,
        0 <= idx < width,
        header_fits_value(header_in(s, 8 * idx), v),
        0 <= execution < recorded(header_in(s, 8 * idx)),
        entry_holds(v, execution),
    ensures
        decode_entry(with_entry(s, width, idx, execution, v), width, idx, execution) == Some(v),
{
    let t = with_entry(s, width, idx, execution, v);
    assert(le_word(t, 8 * idx) == le_word(s, 8 * idx));
    match v {
        CmpValuesView::Bytes(a, b) => {
            let at = rtn_entry_at(width, idx, execution);
            let mid = with_operand(s, at, a);
            lemma_operand_round_trip(s, at, a);
            lemma_operand_round_trip(mid, at + 32, b);
            assert(t[at + 31] == mid[at + 31]);
            assert(t.subrange(at, at + operand_len(t[at + 31])) =~= mid.subrange(
                at,
                at + operand_len(mid[at + 31]),
            ));
        },
        _ => {
            let at = entry_at(width, idx, execution);
            let w = entry_words(v);
            lemma_word_of_bytes(w.0);
            lemma_word_of_bytes(w.1);
            lemma_word_of_bytes(w.2);
            lemma_word_of_bytes(w.3);
            assert(le_word(t, at) == w.0);
            assert(le_word(t, at + 8) == w.1);
            assert(le_word(t, at + 16) == w.2);
            assert(le_word(t, at + 24) == w.3);
            lemma_integers_round_trip(v);
        },
    }
}

} // verus!
