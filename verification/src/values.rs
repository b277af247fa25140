//! The operands of one recorded comparison.

use vstd::prelude::*;

verus! {

/// The two operands of one recorded comparison, at the width at which the
/// target compared them.
#[derive(Debug, Clone, PartialEq, Eq)]
pub enum CmpValues {
    /// Two 8-bit operands.
    U8(u8, u8),
    /// Two 16-bit operands.
    U16(u16, u16),
    /// Two 32-bit operands.
    U32(u32, u32),
    /// Two 64-bit operands.
    U64(u64, u64),
    /// Two 128-bit operands.
    U128(u128, u128),
    /// Two byte strings, as handed to a comparison routine.
    Bytes(Vec<u8>, Vec<u8>),
}

/// What a [`CmpValues`] holds, with byte strings as sequences.
pub enum CmpValuesView {
    /// Two 8-bit operands.
    U8(u8, u8),
    /// Two 16-bit operands.
    U16(u16, u16),
    /// Two 32-bit operands.
    U32(u32, u32),
    /// Two 64-bit operands.
    U64(u64, u64),
    /// Two 128-bit operands.
    U128(u128, u128),
    /// Two byte strings.
    Bytes(Seq<u8>, Seq<u8>),
}

/// The low 64 bits of `x`.
pub open spec fn low_word(x: u128) -> u64 {
    (x & 0xffff_ffff_ffff_ffff) as u64
}

impl CmpValuesView {
    /// True of the five integer variants.
    pub open spec fn is_numeric(self) -> bool {
        !(self is Bytes)
    }

    /// The operands as a pair of 64-bit words: narrower integers widened with
    /// zeros, 128-bit integers cut to their low word. Byte strings have none.
    pub open spec fn u64_pair(self) -> Option<(u64, u64)> {
        match self {
            CmpValuesView::U8(a, b) => Some((a as u64, b as u64)),
            CmpValuesView::U16(a, b) => Some((a as u64, b as u64)),
            CmpValuesView::U32(a, b) => Some((a as u64, b as u64)),
            CmpValuesView::U64(a, b) => Some((a, b)),
            CmpValuesView::U128(a, b) => Some((low_word(a), low_word(b))),
            CmpValuesView::Bytes(_, _) => None,
        }
    }
}

impl View for CmpValues {
    type V = CmpValuesView;

    open spec fn view(&self) -> CmpValuesView {
        match *self {
            CmpValues::U8(a, b) => CmpValuesView::U8(a, b),
            CmpValues::U16(a, b) => CmpValuesView::U16(a, b),
            CmpValues::U32(a, b) => CmpValuesView::U32(a, b),
            CmpValues::U64(a, b) => CmpValuesView::U64(a, b),
            CmpValues::U128(a, b) => CmpValuesView::U128(a, b),
            CmpValues::Bytes(a, b) => CmpValuesView::Bytes(a@, b@),
        }
    }
}

impl DeepView for CmpValues {
    type V = CmpValuesView;

    open spec fn deep_view(&self) -> CmpValuesView {
        self@
    }
}

impl CmpValues {
    /// Tells whether the operands are integers.
    pub fn is_numeric(&self) -> (b: bool)
        ensures
            b == self@.is_numeric(),
    {
        match self {
            CmpValues::Bytes(_, _) => false,
            _ => true,
        }
    }

    /// The operands as a pair of 64-bit words, where they are integers.
    pub fn to_u64_tuple(&self) -> (pair: Option<(u64, u64)>)
        ensures
            pair == self@.u64_pair(),
    {
        match self {
            CmpValues::U8(a, b) => Some((*a as u64, *b as u64)),
            CmpValues::U16(a, b) => Some((*a as u64, *b as u64)),
            CmpValues::U32(a, b) => Some((*a as u64, *b as u64)),
            CmpValues::U64(a, b) => Some((*a, *b)),
            CmpValues::U128(x, y) => {
                let a: u128 = *x;
                let b: u128 = *y;
                assert(a & 0xffff_ffff_ffff_ffff <= 0xffff_ffff_ffff_ffff && b & 0xffff_ffff_ffff_ffff
                    <= 0xffff_ffff_ffff_ffff) by (bit_vector);
                Some(((a & 0xffff_ffff_ffff_ffff) as u64, (b & 0xffff_ffff_ffff_ffff) as u64))
            },
            CmpValues::Bytes(_, _) => None,
        }
    }
}

} // verus!
