//! The per-site header of the comparison trace.
//!
//! Each comparison site owns one 64-bit header record. The instrumented
//! binary packs seven fields into it, least significant bits first:
//!
//! | bits   | field       |
//! |--------|-------------|
//! | 0..24  | `hits`      |
//! | 24..48 | `id`        |
//! | 48..53 | `shape`     |
//! | 53..55 | `kind`      |
//! | 55..59 | `attribute` |
//! | 59     | `overflow`  |
//! | 60..64 | `reserved`  |
//!
//! The record is stored as eight little-endian bytes. Packing and unpacking
//! are written out as masks and shifts, and proved to be inverse to
//! each other.

use vstd::prelude::*;
use crate::wire::{le_word, word_byte, word_bytes, read_word, lemma_word_of_bytes, lemma_bytes_of_word};

verus! {

/// `kind` of a site that compares two integers.
pub const CMPLOG_KIND_INS: u8 = 0;

/// `kind` of a site that compares two byte strings (a routine call such as `memcmp`).
pub const CMPLOG_KIND_RTN: u8 = 1;

/// Bytes of one packed header.
pub const HEADER_BYTES: usize = 8;

/// One decoded header.
#[derive(Clone, Copy, Debug, PartialEq, Eq, Structural)]
pub struct AFLppCmpLogHeader {
    /// How often the site was executed (24 bits; the target stops counting at the top).
    pub hits: u32,
    /// Identifier that the instrumentation gave the site (24 bits).
    pub id: u32,
    /// Operand width in bytes, minus one (5 bits).
    pub shape: u8,
    /// Integer or byte-string comparison (2 bits).
    pub kind: u8,
    /// Relational flags of the comparison (4 bits).
    pub attribute: u8,
    /// Set by the target when `hits` ran past the depth of the log.
    pub overflow: bool,
    /// Reserved bits (4 bits).
    pub reserved: u8,
}

/// The fields of the header packed in the word `w`.
pub open spec fn unpack(w: u64) -> AFLppCmpLogHeader {
    AFLppCmpLogHeader {
        hits: (w & 0xff_ffff) as u32,
        id: ((w >> 24) & 0xff_ffff) as u32,
        shape: ((w >> 48) & 0x1f) as u8,
        kind: ((w >> 53) & 0x3) as u8,
        attribute: ((w >> 55) & 0xf) as u8,
        overflow: (w >> 59) & 0x1 == 1,
        reserved: ((w >> 60) & 0xf) as u8,
    }
}

/// The word that packs `h`; a field wider than its slot loses its upper bits.
pub open spec fn pack(h: AFLppCmpLogHeader) -> u64 {
    let flag: u64 = if h.overflow {
        1
    } else {
        0
    };
    (h.hits as u64 & 0xff_ffff)
        | (h.id as u64 & 0xff_ffff) << 24
        | (h.shape as u64 & 0x1f) << 48
        | (h.kind as u64 & 0x3) << 53
        | (h.attribute as u64 & 0xf) << 55
        | flag << 59
        | (h.reserved as u64 & 0xf) << 60
}

/// The header stored in the eight bytes of `s` from `at` on.
pub open spec fn header_in(s: Seq<u8>, at: int) -> AFLppCmpLogHeader {
    unpack(le_word(s, at))
}

/// The eight bytes that store `h`.
pub open spec fn header_bytes(h: AFLppCmpLogHeader) -> Seq<u8> {
    Seq::new(8, |k: int| word_byte(pack(h), k))
}

impl AFLppCmpLogHeader {
    /// Every field fits the bits that the record has for it.
    pub open spec fn fits(&self) -> bool {
        &&& self.hits < 0x100_0000
        &&& self.id < 0x100_0000
        &&& self.shape < 32
        &&& self.kind < 4
        &&& self.attribute < 16
        &&& self.reserved < 16
    }

    /// The header of a site that recorded nothing: all bits zero.
    pub open spec fn empty() -> AFLppCmpLogHeader {
        AFLppCmpLogHeader {
            hits: 0,
            id: 0,
            shape: 0,
            kind: 0,
            attribute: 0,
            overflow: false,
            reserved: 0,
        }
    }

    /// Unpacks a header word.
    pub fn from_word(w: u64) -> (h: Self)
        ensures
            h == unpack(w),
            h.fits(),
    {
        assert({
            &&& w & 0xff_ffff < 0x100_0000
            &&& (w >> 24) & 0xff_ffff < 0x100_0000
            &&& (w >> 48) & 0x1f < 32
            &&& (w >> 53) & 0x3 < 4
            &&& (w >> 55) & 0xf < 16
            &&& (w >> 60) & 0xf < 16
        }) by (bit_vector);
        AFLppCmpLogHeader {
            hits: (w & 0xff_ffff) as u32,
            id: ((w >> 24) & 0xff_ffff) as u32,
            shape: ((w >> 48) & 0x1f) as u8,
            kind: ((w >> 53) & 0x3) as u8,
            attribute: ((w >> 55) & 0xf) as u8,
            overflow: (w >> 59) & 0x1 == 1,
            reserved: ((w >> 60) & 0xf) as u8,
        }
    }

    /// Packs the header into its word.
    pub fn to_word(&self) -> (w: u64)
        ensures
            w == pack(*self),
    {
        let flag: u64 = if self.overflow {
            1
        } else {
            0
        };
        (self.hits as u64 & 0xff_ffff)
            | (self.id as u64 & 0xff_ffff) << 24
            | (self.shape as u64 & 0x1f) << 48
            | (self.kind as u64 & 0x3) << 53
            | (self.attribute as u64 & 0xf) << 55
            | flag << 59
            | (self.reserved as u64 & 0xf) << 60
    }

    /// Decodes the eight bytes of a packed header.
    pub fn from_bytes(data: &[u8; 8]) -> (h: Self)
        ensures
            h == header_in(data@, 0),
            h.fits(),
    {
        Self::from_word(read_word(data.as_slice(), 0))
    }

    /// Encodes the header as the eight bytes of its packed form.
    pub fn to_bytes(&self) -> (data: [u8; 8])
        ensures
            data@ == header_bytes(*self),
    {
        let data = word_bytes(self.to_word());
        assert(data@ =~= header_bytes(*self));
        data
    }
}

/// Packing a header whose fields fit and unpacking the word gives the header back.
pub proof fn lemma_unpack_pack(h: AFLppCmpLogHeader)
    requires
        h.fits(),
    ensures
        unpack(pack(h)) == h,
{
    let hits = h.hits;
    let id = h.id;
    let shape = h.shape;
    let kind = h.kind;
    let attribute = h.attribute;
    let reserved = h.reserved;
    let flag: u64 = if h.overflow {
        1
    } else {
        0
    };
    let w: u64 = pack(h);
    assert({
        &&& (w & 0xff_ffff) as u32 == hits
        &&& ((w >> 24) & 0xff_ffff) as u32 == id
        &&& ((w >> 48) & 0x1f) as u8 == shape
        &&& ((w >> 53) & 0x3) as u8 == kind
        &&& ((w >> 55) & 0xf) as u8 == attribute
        &&& (w >> 59) & 0x1 == flag
        &&& ((w >> 60) & 0xf) as u8 == reserved
    }) by (bit_vector)
        requires
            w == (hits as u64 & 0xff_ffff)
                | (id as u64 & 0xff_ffff) << 24
                | (shape as u64 & 0x1f) << 48
                | (kind as u64 & 0x3) << 53
                | (attribute as u64 & 0xf) << 55
                | flag << 59
                | (reserved as u64 & 0xf) << 60,
            hits < 0x100_0000,
            id < 0x100_0000,
            shape < 32,
            kind < 4,
            attribute < 16,
            reserved < 16,
            flag == 0 || flag == 1,
    ;
}

/// Unpacking any word and packing the fields gives the word back: no bit of
/// the record is outside the seven fields.
pub proof fn lemma_pack_unpack(w: u64)
    ensures
        pack(unpack(w)) == w,
{
    let flag: u64 = if (w >> 59) & 0x1 == 1 {
        1
    } else {
        0
    };
    assert(((w & 0xff_ffff) as u32 as u64 & 0xff_ffff)
        | (((w >> 24) & 0xff_ffff) as u32 as u64 & 0xff_ffff) << 24
        | (((w >> 48) & 0x1f) as u8 as u64 & 0x1f) << 48
        | (((w >> 53) & 0x3) as u8 as u64 & 0x3) << 53
        | (((w >> 55) & 0xf) as u8 as u64 & 0xf) << 55
        | flag << 59
        | (((w >> 60) & 0xf) as u8 as u64 & 0xf) << 60 == w) by (bit_vector)
        requires
            flag == (if (w >> 59) & 0x1 == 1 {
                1u64
            } else {
                0u64
            }),
    ;
}

/// Encoding a header whose fields fit and decoding the bytes gives the header back.
pub proof fn lemma_decode_encode(h: AFLppCmpLogHeader)
    requires
        h.fits(),
    ensures
        header_in(header_bytes(h), 0) == h,
{
    lemma_word_of_bytes(pack(h));
    lemma_unpack_pack(h);
}

/// Decoding any eight bytes and encoding the header gives the bytes back.
pub proof fn lemma_encode_decode(data: Seq<u8>)
    requires
        data.len() == 8,
    ensures
        header_bytes(header_in(data, 0)) == data,
{
    lemma_pack_unpack(le_word(data, 0));
    lemma_bytes_of_word(data[0], data[1], data[2], data[3], data[4], data[5], data[6], data[7]);
    assert(header_bytes(header_in(data, 0)) =~= data);
}

} // verus!
