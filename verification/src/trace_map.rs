//! The comparison map: a typed view over the trace buffer.
//!
//! The view borrows the buffer; it never owns or grows it. A view may also
//! stand for a buffer that is not there yet: such a map records nothing and
//! cannot be reset.
//!
//! What only reads the buffer is also there as plain functions on a byte
//! slice, for callers that hold the bytes themselves.

use vstd::prelude::*;
use vstd::slice::{slice_subrange, slice_to_vec};
use crate::error::Error;
use crate::header::{AFLppCmpLogHeader, header_in, pack, unpack, lemma_unpack_pack, CMPLOG_KIND_INS, CMPLOG_KIND_RTN};
use crate::layout::{
    cleared, with_zeros, decode_entry, decode_integers, decode_operand, decode_prefix, entry_holds, entry_words,
    header_fits_value, recorded, recorded_in, site_in, value_in, with_entry, with_operand,
    lemma_cleared_header, lemma_entry_keeps_headers, lemma_entry_round_trip, CMPLOG_MAP_H,
    CMPLOG_MAP_RTN_H, CMPLOG_RTN_LEN, CMPLOG_SITE_BYTES,
};
use crate::values::{CmpValues, CmpValuesView};
use crate::wire::{le_word, read_word, with_le_word, write_word, lemma_read_after_write};

verus! {

/// Decodes the four words of an integer entry at the width that `shape` names.
fn integers_of(shape: u8, v0: u64, v1: u64, v0_hi: u64, v1_hi: u64) -> (v: Option<CmpValues>)
    ensures
        v.deep_view() == decode_integers(shape, v0, v1, v0_hi, v1_hi),
{
    assert(v0 & 0xff < 0x100 && v1 & 0xff < 0x100 && v0 & 0xffff < 0x1_0000 && v1 & 0xffff < 0x1_0000
        && v0 & 0xffff_ffff < 0x1_0000_0000 && v1 & 0xffff_ffff < 0x1_0000_0000) by (bit_vector);
    if shape == 0 {
        Some(CmpValues::U8((v0 & 0xff) as u8, (v1 & 0xff) as u8))
    } else if shape == 1 {
        Some(CmpValues::U16((v0 & 0xffff) as u16, (v1 & 0xffff) as u16))
    } else if shape == 3 {
        Some(CmpValues::U32((v0 & 0xffff_ffff) as u32, (v1 & 0xffff_ffff) as u32))
    } else if shape == 7 {
        Some(CmpValues::U64(v0, v1))
    } else if shape == 15 {
        Some(CmpValues::U128((v0_hi as u128) << 64 | (v0 as u128), (v1_hi as u128) << 64 | (v1 as u128)))
    } else {
        None
    }
}

/// Copies one operand of a routine entry out of the buffer.
fn operand_of(buf: &[u8], at: usize) -> (v: Option<Vec<u8>>)
    requires
        at + 32 <= buf@.len() <= usize::MAX,
    ensures
        match v {
            Some(bytes) => decode_operand(buf@, at as int) == Some(bytes@),
            None => decode_operand(buf@, at as int) is None,
        },
{
    let mark: u8 = buf[at + 31];
    let n: u8 = mark & 0x7f;
    assert(mark & 0x7f <= 127) by (bit_vector);
    if n <= 31 {
        Some(slice_to_vec(slice_subrange(buf, at, at + n as usize)))
    } else {
        None
    }
}

/// Tells whether `region` is as long as a map of `width` sites.
fn is_map_of(region: &[u8], width: usize) -> (b: bool)
    ensures
        b == (region@.len() == 1032 * width),
        region@.len() <= usize::MAX,
{
    let len: usize = region.len();
    match width.checked_mul(CMPLOG_SITE_BYTES) {
        Some(n) => len == n,
        None => false,
    }
}

/// Decodes the header of site `idx` from a buffer that holds a map of
/// `width` sites. Nothing comes back where the buffer has another length or
/// the map has no such site.
pub fn header_at(region: &[u8], width: usize, idx: usize) -> (h: Option<AFLppCmpLogHeader>)
    ensures
        h == if site_in(region@, width as int, idx as int) {
            Some(header_in(region@, 8 * idx))
        } else {
            None
        },
        h matches Some(x) ==> x.fits(),
{
    if is_map_of(region, width) && idx < width {
        Some(AFLppCmpLogHeader::from_word(read_word(region, idx * 8)))
    } else {
        None
    }
}

/// Counts the recorded entries of a site by its header.
fn usable_executions(h: &AFLppCmpLogHeader) -> (n: usize)
    ensures
        n == recorded(*h),
        n <= CMPLOG_MAP_H,
{
    let depth: usize = if h.kind == CMPLOG_KIND_INS {
        CMPLOG_MAP_H
    } else {
        CMPLOG_MAP_RTN_H
    };
    if (h.hits as usize) < depth {
        h.hits as usize
    } else {
        depth
    }
}

/// Counts the entries of site `idx` that hold a recorded comparison, in a
/// buffer that holds a map of `width` sites: the hits of the site, but no
/// more than its log is deep.
pub fn usable_executions_at(region: &[u8], width: usize, idx: usize) -> (n: usize)
    ensures
        n == recorded_in(region@, width as int, idx as int),
        n <= CMPLOG_MAP_H,
{
    match header_at(region, width, idx) {
        Some(h) => usable_executions(&h),
        None => 0,
    }
}

/// Decodes entry `execution` of site `idx` from a buffer that holds a map of
/// `width` sites, by the kind and the shape in the header of the site. An
/// entry past the recorded ones, or one whose kind, shape or length is not
/// known, decodes to nothing.
pub fn values_at(region: &[u8], width: usize, idx: usize, execution: usize) -> (v: Option<CmpValues>)
    ensures
        v.deep_view() == value_in(region@, width as int, idx as int, execution as int),
{
    if !is_map_of(region, width) || idx >= width {
        return None;
    }
    let h = AFLppCmpLogHeader::from_word(read_word(region, idx * 8));
    if execution >= usable_executions(&h) {
        None
    } else if h.kind == CMPLOG_KIND_INS {
        let at: usize = width * 8 + idx * 1024 + execution * 32;
        integers_of(
            h.shape,
            read_word(region, at),
            read_word(region, at + 8),
            read_word(region, at + 16),
            read_word(region, at + 24),
        )
    } else if h.kind == CMPLOG_KIND_RTN {
        let at: usize = width * 8 + idx * 1024 + execution * 64;
        match operand_of(region, at) {
            Some(a) => match operand_of(region, at + 32) {
                Some(b) => Some(CmpValues::Bytes(a, b)),
                None => None,
            },
            None => None,
        }
    } else {
        None
    }
}

/// Sets the first `n` bytes of the buffer to zero.
fn zero_prefix(buf: &mut [u8], n: usize)
    requires
        n <= old(buf)@.len(),
    ensures
        final(buf)@ == with_zeros(old(buf)@, n as int),
    no_unwind
{
    let mut k: usize = 0;
    while k < n
        invariant
            k <= n,
            n <= buf@.len(),
            buf@.len() == old(buf)@.len(),
            forall|i: int| 0 <= i < buf@.len() ==> buf@[i] == if i < k { 0u8 } else { old(buf)@[i] },
        decreases n - k,
    {
        buf[k] = 0;
        k = k + 1;
    }
    assert(buf@ =~= with_zeros(old(buf)@, n as int));
}

/// Writes one operand of a routine entry: its bytes, zeros up to 31 content
/// bytes, then the length.
fn write_operand(buf: &mut [u8], at: usize, a: &Vec<u8>, n: usize)
    requires
        at + 32 <= old(buf)@.len(),
        at + 32 <= usize::MAX,
        n == a@.len(),
        n <= 31,
    ensures
        final(buf)@ == with_operand(old(buf)@, at as int, a@),
    no_unwind
{
    let mut k: usize = 0;
    while k < 31
        invariant
            k <= 31,
            at + 32 <= usize::MAX,
            at + 32 <= buf@.len(),
            buf@.len() == old(buf)@.len(),
            n == a@.len(),
            n <= 31,
            forall|i: int|
                0 <= i < buf@.len() ==> buf@[i] == if at <= i < at + k {
                    if i - at < n {
                        a@[i - at]
                    } else {
                        0u8
                    }
                } else {
                    old(buf)@[i]
                },
        decreases 31 - k,
    {
        if k < n {
            buf[at + k] = a[k];
        } else {
            buf[at + k] = 0;
        }
        k = k + 1;
    }
    buf[at + 31] = n as u8;
    assert(buf@ =~= with_operand(old(buf)@, at as int, a@));
}

/// The four words of the integer entry that records `v`.
fn words_of(v: &CmpValues) -> (w: (u64, u64, u64, u64))
    ensures
        w == entry_words(v@),
{
    match v {
        CmpValues::U8(a, b) => (*a as u64, *b as u64, 0, 0),
        CmpValues::U16(a, b) => (*a as u64, *b as u64, 0, 0),
        CmpValues::U32(a, b) => (*a as u64, *b as u64, 0, 0),
        CmpValues::U64(a, b) => (*a, *b, 0, 0),
        CmpValues::U128(x, y) => {
            let a: u128 = *x;
            let b: u128 = *y;
            assert(a & 0xffff_ffff_ffff_ffff <= 0xffff_ffff_ffff_ffff && b & 0xffff_ffff_ffff_ffff
                <= 0xffff_ffff_ffff_ffff && a >> 64 <= 0xffff_ffff_ffff_ffff && b >> 64
                <= 0xffff_ffff_ffff_ffff) by (bit_vector);
            (
                (a & 0xffff_ffff_ffff_ffff) as u64,
                (b & 0xffff_ffff_ffff_ffff) as u64,
                (a >> 64) as u64,
                (b >> 64) as u64,
            )
        },
        CmpValues::Bytes(_, _) => (0, 0, 0, 0),
    }
}

/// The bytes behind a region that may not be there.
spec fn region_bytes(region: Option<&mut [u8]>) -> Seq<u8> {
    match region {
        Some(r) => r@,
        None => Seq::empty(),
    }
}

/// Sets the first `n` bytes of the region to zero, where there is a region.
fn region_clear(region: &mut Option<&mut [u8]>, n: usize) -> (r: Result<(), Error>)
    requires
        n <= region_bytes(*old(region)).len(),
    ensures
        r is Ok <==> *old(region) is Some,
        r matches Err(e) ==> e == Error::MapUnavailable,
        *final(region) is Some <==> *old(region) is Some,
        region_bytes(*final(region)) == with_zeros(region_bytes(*old(region)), n as int),
    no_unwind
{
    match region {
        Some(buf) => {
            zero_prefix(buf, n);
            Ok(())
        },
        None => {
            assert(region_bytes(*region) =~= with_zeros(region_bytes(*old(region)), n as int));
            Err(Error::MapUnavailable)
        },
    }
}

/// Writes a word into the region.
fn region_write_word(region: &mut Option<&mut [u8]>, at: usize, w: u64)
    requires
        *old(region) is Some,
        at + 8 <= region_bytes(*old(region)).len(),
        at + 8 <= usize::MAX,
    ensures
        *final(region) is Some,
        region_bytes(*final(region)) == with_le_word(region_bytes(*old(region)), at as int, w),
    no_unwind
{
    match region {
        Some(buf) => {
            write_word(buf, at, w);
        },
        None => {},
    }
}

/// Writes one operand of a routine entry into the region.
fn region_write_operand(region: &mut Option<&mut [u8]>, at: usize, a: &Vec<u8>, n: usize)
    requires
        *old(region) is Some,
        at + 32 <= region_bytes(*old(region)).len(),
        at + 32 <= usize::MAX,
        n == a@.len(),
        n <= 31,
    ensures
        *final(region) is Some,
        region_bytes(*final(region)) == with_operand(region_bytes(*old(region)), at as int, a@),
    no_unwind
{
    match region {
        Some(buf) => {
            write_operand(buf, at, a, n);
        },
        None => {},
    }
}

/// A view over a trace buffer of `len()` comparison sites.
#[derive(Debug)]
pub struct AFLppCmpLogMap<'a> {
    region: Option<&'a mut [u8]>,
    width: usize,
}

impl<'a> AFLppCmpLogMap<'a> {
    #[verifier::type_invariant]
    spec fn well_formed(&self) -> bool {
        self.region is Some ==> region_bytes(self.region).len() == self.width * 1032 <= usize::MAX
    }

    /// The buffer is there.
    pub closed spec fn is_mapped(&self) -> bool {
        self.region is Some
    }

    /// Number of comparison sites.
    pub closed spec fn spec_len(&self) -> usize {
        self.width
    }

    /// The bytes of the buffer; of a map without one, no bytes.
    pub closed spec fn bytes(&self) -> Seq<u8> {
        region_bytes(self.region)
    }

    /// Some site of the map, with its buffer, is `idx`.
    pub open spec fn has_site(&self, idx: usize) -> bool {
        self.is_mapped() && idx < self.spec_len()
    }

    /// The header of site `idx`.
    pub open spec fn header_of(&self, idx: usize) -> AFLppCmpLogHeader {
        header_in(self.bytes(), 8 * idx)
    }

    /// Recorded entries of site `idx`; none where the map has no such site.
    pub open spec fn recorded_for(&self, idx: usize) -> int {
        if self.has_site(idx) {
            recorded(self.header_of(idx))
        } else {
            0
        }
    }

    /// What entry `execution` of site `idx` decodes to.
    pub open spec fn value_at(&self, idx: usize, execution: usize) -> Option<CmpValuesView> {
        if self.has_site(idx) {
            decode_entry(self.bytes(), self.spec_len() as int, idx as int, execution as int)
        } else {
            None
        }
    }

    /// The bytes of the buffer after a reset.
    pub open spec fn reset_bytes(&self) -> Seq<u8> {
        cleared(self.bytes(), self.spec_len() as int)
    }

    /// All values recorded for site `idx`, in the order of recording.
    pub open spec fn values_for(&self, idx: usize) -> Seq<CmpValuesView> {
        decode_prefix(self.bytes(), self.spec_len() as int, idx as int, self.recorded_for(idx) as nat)
    }

    /// A view over `region` as a map of `width` sites. The region has to be
    /// exactly as long as such a map is.
    pub fn new(region: &'a mut [u8], width: usize) -> (map: Option<Self>)
        ensures
            map is Some <==> old(region)@.len() == width * 1032,
            map matches Some(m) ==> m.is_mapped() && m.spec_len() == width && m.bytes() == old(
                region,
            )@,
    {
        if is_map_of(region, width) {
            Some(AFLppCmpLogMap { region: Some(region), width })
        } else {
            None
        }
    }

    /// A map of `width` sites whose buffer is not there yet.
    pub fn unmapped(width: usize) -> (map: Self)
        ensures
            !map.is_mapped(),
            map.spec_len() == width,
    {
        AFLppCmpLogMap { region: None, width }
    }

    /// Gives the buffer back, with all that was written through the view.
    pub fn into_region(self) -> (region: Option<&'a mut [u8]>)
        ensures
            region is Some <==> self.is_mapped(),
            region matches Some(r) ==> r@ == self.bytes(),
    {
        self.region
    }

    /// Tells whether the buffer is there.
    pub fn mapped(&self) -> (b: bool)
        ensures
            b == self.is_mapped(),
            b ==> self.bytes().len() == self.spec_len() * 1032 <= usize::MAX,
    {
        proof {
            use_type_invariant(self);
        }
        self.region.is_some()
    }

    /// Number of comparison sites.
    pub fn len(&self) -> (n: usize)
        ensures
            n == self.spec_len(),
    {
        self.width
    }

    /// Tells whether the map has no site at all.
    pub fn is_empty(&self) -> (b: bool)
        ensures
            b == (self.spec_len() == 0),
    {
        self.width == 0
    }

    /// The header of site `idx`, where the map has such a site.
    pub fn header(&self, idx: usize) -> (h: Option<AFLppCmpLogHeader>)
        ensures
            h == if self.has_site(idx) {
                Some(self.header_of(idx))
            } else {
                None
            },
            h matches Some(x) ==> x.fits(),
    {
        proof {
            use_type_invariant(self);
        }
        match &self.region {
            Some(r) => header_at(r, self.width, idx),
            None => None,
        }
    }

    /// How often site `idx` was executed, as its header counts it.
    pub fn executions_for(&self, idx: usize) -> (n: usize)
        ensures
            n == if self.has_site(idx) {
                self.header_of(idx).hits as int
            } else {
                0
            },
    {
        match self.header(idx) {
            Some(h) => h.hits as usize,
            None => 0,
        }
    }

    /// How many entries of site `idx` hold a recorded comparison. The log
    /// keeps no more than its depth, however far `hits` ran.
    pub fn usable_executions_for(&self, idx: usize) -> (n: usize)
        ensures
            n == self.recorded_for(idx),
            n <= CMPLOG_MAP_H,
    {
        proof {
            use_type_invariant(self);
        }
        match &self.region {
            Some(r) => usable_executions_at(r, self.width, idx),
            None => 0,
        }
    }

    /// Decodes entry `execution` of site `idx`, by the kind and the shape in
    /// the header of the site. An entry past the recorded ones, or one whose
    /// kind, shape or length is not known, decodes to nothing.
    pub fn values_of(&self, idx: usize, execution: usize) -> (v: Option<CmpValues>)
        ensures
            v.deep_view() == self.value_at(idx, execution),
    {
        proof {
            use_type_invariant(self);
        }
        match &self.region {
            Some(r) => values_at(r, self.width, idx, execution),
            None => None,
        }
    }

    /// Empties the map for the next execution: every header is set to zero,
    /// so that no site has a recorded entry. The log is left as it is; with
    /// no hits in the header, nothing of it is read. Fails where the buffer
    /// is not there.
    pub fn reset(&mut self) -> (r: Result<(), Error>)
        ensures
            r is Ok <==> old(self).is_mapped(),
            r matches Err(e) ==> e == Error::MapUnavailable,
            final(self).is_mapped() == old(self).is_mapped(),
            final(self).spec_len() == old(self).spec_len(),
            final(self).bytes() == if r is Ok {
                old(self).reset_bytes()
            } else {
                old(self).bytes()
            },
            forall|idx: usize|
                final(self).has_site(idx) ==> #[trigger] final(self).header_of(idx)
                    == AFLppCmpLogHeader::empty(),
            forall|idx: usize| #[trigger] final(self).recorded_for(idx) == 0,
            forall|idx: usize, execution: usize| #[trigger]
                final(self).value_at(idx, execution) is None,
    {
        proof {
            use_type_invariant(&*self);
        }
        let ghost before = self.bytes();
        let width: usize = self.width;
        let n: usize = if self.mapped() {
            width * 8
        } else {
            0
        };
        let r = region_clear(&mut self.region, n);
        proof {
            if r is Ok {
                assert(self.bytes() =~= cleared(before, width as int));
            } else {
                assert(self.bytes() =~= before);
            }
            assert forall|idx: usize| self.has_site(idx) implies #[trigger] self.header_of(idx)
                == AFLppCmpLogHeader::empty() by {
                lemma_cleared_header(before, width as int, idx as int);
            }
            assert forall|idx: usize| #[trigger] self.recorded_for(idx) == 0 by {
                if self.has_site(idx) {
                    assert(self.header_of(idx) == AFLppCmpLogHeader::empty());
                }
            }
            assert forall|idx: usize, execution: usize| #[trigger]
                self.value_at(idx, execution) is None by {
                assert(self.recorded_for(idx) == 0);
            }
        }
        r
    }

    /// Stores `h`, packed, as the header of site `idx`. Returns whether the
    /// map has such a site; if it has none, nothing is written.
    pub fn set_header(&mut self, idx: usize, h: &AFLppCmpLogHeader) -> (done: bool)
        ensures
            done == old(self).has_site(idx),
            final(self).is_mapped() == old(self).is_mapped(),
            final(self).spec_len() == old(self).spec_len(),
            final(self).bytes() == if done {
                with_le_word(old(self).bytes(), 8 * idx, pack(*h))
            } else {
                old(self).bytes()
            },
            done ==> final(self).header_of(idx) == unpack(pack(*h)),
            done && h.fits() ==> final(self).header_of(idx) == *h,
            forall|i: usize|
                i != idx && old(self).has_site(i) ==> #[trigger] final(self).header_of(i) == old(
                    self,
                ).header_of(i),
    {
        proof {
            use_type_invariant(&*self);
        }
        let ghost before = self.bytes();
        if self.mapped() && idx < self.width {
            region_write_word(&mut self.region, idx * 8, h.to_word());
            proof {
                lemma_read_after_write(before, 8 * idx, pack(*h));
                if h.fits() {
                    lemma_unpack_pack(*h);
                }
                assert forall|i: usize| i != idx && old(self).has_site(i) implies #[trigger] self.header_of(
                    i,
                ) == old(self).header_of(i) by {
                    assert(le_word(self.bytes(), 8 * i) == le_word(before, 8 * i));
                }
            }
            true
        } else {
            false
        }
    }

    /// Writes the bytes of an entry, where there is room for it.
    fn write_entry(&mut self, idx: usize, execution: usize, v: &CmpValues) -> (done: bool)
        ensures
            done == (old(self).has_site(idx) && entry_holds(v@, execution as int)),
            final(self).is_mapped() == old(self).is_mapped(),
            final(self).spec_len() == old(self).spec_len(),
            final(self).bytes() == if done {
                with_entry(old(self).bytes(), old(self).spec_len() as int, idx as int, execution as int, v@)
            } else {
                old(self).bytes()
            },
    {
        proof {
            use_type_invariant(&*self);
        }
        let width: usize = self.width;
        if !self.mapped() || idx >= width {
            return false;
        }
        match v {
            CmpValues::Bytes(a, b) => {
                if execution < CMPLOG_MAP_RTN_H && a.len() <= CMPLOG_RTN_LEN && b.len()
                    <= CMPLOG_RTN_LEN {
                    let at: usize = width * 8 + idx * 1024 + execution * 64;
                    region_write_operand(&mut self.region, at, a, a.len());
                    region_write_operand(&mut self.region, at + 32, b, b.len());
                    true
                } else {
                    false
                }
            },
            _ => {
                if execution < CMPLOG_MAP_H {
                    let at: usize = width * 8 + idx * 1024 + execution * 32;
                    let w = words_of(v);
                    region_write_word(&mut self.region, at, w.0);
                    region_write_word(&mut self.region, at + 8, w.1);
                    region_write_word(&mut self.region, at + 16, w.2);
                    region_write_word(&mut self.region, at + 24, w.3);
                    true
                } else {
                    false
                }
            },
        }
    }

    /// Stores `v` as entry `execution` of site `idx`, in the layout of the
    /// kind of `v`. Returns whether it was stored: the map has to have the
    /// site, a log of that kind has to be deep enough for the entry, and a
    /// byte string may have no more than 31 bytes. Otherwise nothing is
    /// written. No header changes. Where the header of the site has the kind
    /// and the shape of `v` and counts the entry among the recorded ones, the
    /// entry from then on decodes to `v`.
    pub fn set_values(&mut self, idx: usize, execution: usize, v: &CmpValues) -> (done: bool)
        ensures
            done == (old(self).has_site(idx) && entry_holds(v@, execution as int)),
            final(self).is_mapped() == old(self).is_mapped(),
            final(self).spec_len() == old(self).spec_len(),
            final(self).bytes() == if done {
                with_entry(old(self).bytes(), old(self).spec_len() as int, idx as int, execution as int, v@)
            } else {
                old(self).bytes()
            },
            forall|i: usize|
                old(self).has_site(i) ==> #[trigger] final(self).header_of(i) == old(self).header_of(i),
            done && header_fits_value(old(self).header_of(idx), v@) && execution < old(
                self,
            ).recorded_for(idx) ==> final(self).value_at(idx, execution) == Some(v@),
    {
        proof {
            use_type_invariant(&*self);
        }
        let ghost s = self.bytes();
        let ghost w = self.width as int;
        let done = self.write_entry(idx, execution, v);
        proof {
            if done {
                lemma_entry_keeps_headers(s, w, idx as int, execution as int, v@);
                assert forall|i: usize| old(self).has_site(i) implies #[trigger] self.header_of(i)
                    == old(self).header_of(i) by {
                    assert(header_in(self.bytes(), 8 * (i as int)) == header_in(s, 8 * (i as int)));
                }
                if header_fits_value(old(self).header_of(idx), v@) && execution < old(
                    self,
                ).recorded_for(idx) {
                    lemma_entry_round_trip(s, w, idx as int, execution as int, v@);
                }
            }
        }
        done
    }
}

} // verus!
