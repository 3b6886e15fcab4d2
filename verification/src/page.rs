//! The fixed page buffer: an in-memory mirror of one on-disk page.
//!
//! A page has a stable identity (`page_id`), a fixed byte capacity chosen at
//! construction, and a sequential write cursor.  Sequential writes are
//! all-or-nothing: a write that does not fit within the capacity mutates
//! nothing and reports [`SpaceNotEnough`].  Typed random-access readers index
//! absolute offsets that the caller must know to be in bounds.
//!
//! Every multi-byte field of the format uses big-endian byte order, at every
//! width.

use vstd::prelude::*;
use vstd::string::StringSliceAdditionalSpecFns;

verus! {

/// A sequential write would not fit within the page's fixed capacity.
/// Nothing was mutated.
#[derive(Debug, Clone, PartialEq, Eq)]
pub struct SpaceNotEnough;

impl SpaceNotEnough {
    /// The condition's description, as callers would print it.
    pub fn message(&self) -> (r: String)
        ensures
            r@ == "page space is not enough"@,
    {
        "page space is not enough".to_owned()
    }
}

/// A page holds bytes that the format forbids: a header title without a
/// terminating zero, or an unknown content-type discriminant.
#[derive(Debug, Clone, PartialEq, Eq)]
pub struct CorruptPage;

/// `b` with the `d.len()` bytes starting at `at` replaced by `d`.
pub open spec fn splice_bytes(b: Seq<u8>, at: int, d: Seq<u8>) -> Seq<u8>
    recommends
        0 <= at,
        at + d.len() <= b.len(),
{
    b.subrange(0, at) + d + b.subrange(at + d.len(), b.len() as int)
}

/// The two big-endian bytes of `x`: most significant first.
pub open spec fn spec_u16_to_be_bytes(x: u16) -> Seq<u8> {
    seq![((x >> 8) & 0xff) as u8, (x & 0xff) as u8]
}

/// The value of two bytes read as one big-endian 16-bit integer.
pub open spec fn spec_u16_from_be_bytes(s: Seq<u8>) -> u16
    recommends
        s.len() == 2,
{
    (((s[0] as u16) << 8) | (s[1] as u16)) as u16
}

/// The four big-endian bytes of `x`: most significant first.
pub open spec fn spec_u32_to_be_bytes(x: u32) -> Seq<u8> {
    seq![
        ((x >> 24) & 0xff) as u8,
        ((x >> 16) & 0xff) as u8,
        ((x >> 8) & 0xff) as u8,
        (x & 0xff) as u8,
    ]
}

/// The value of four bytes read as one big-endian 32-bit integer.
pub open spec fn spec_u32_from_be_bytes(s: Seq<u8>) -> u32
    recommends
        s.len() == 4,
{
    (((s[0] as u32) << 24) | ((s[1] as u32) << 16) | ((s[2] as u32) << 8) | (s[3] as u32)) as u32
}

/// The eight big-endian bytes of `x`: most significant first.
pub open spec fn spec_u64_to_be_bytes(x: u64) -> Seq<u8> {
    seq![
        ((x >> 56) & 0xff) as u8,
        ((x >> 48) & 0xff) as u8,
        ((x >> 40) & 0xff) as u8,
        ((x >> 32) & 0xff) as u8,
        ((x >> 24) & 0xff) as u8,
        ((x >> 16) & 0xff) as u8,
        ((x >> 8) & 0xff) as u8,
        (x & 0xff) as u8,
    ]
}

/// The value of eight bytes read as one big-endian 64-bit integer.
pub open spec fn spec_u64_from_be_bytes(s: Seq<u8>) -> u64
    recommends
        s.len() == 8,
{
    (((s[0] as u64) << 56) | ((s[1] as u64) << 48) | ((s[2] as u64) << 40) | ((s[3] as u64)
        << 32) | ((s[4] as u64) << 24) | ((s[5] as u64) << 16) | ((s[6] as u64) << 8) | (
    s[7] as u64)) as u64
}

/// The big-endian 16-bit integer stored at offset `at` of `b`.
pub open spec fn read_u16_at(b: Seq<u8>, at: int) -> u16
    recommends
        0 <= at,
        at + 2 <= b.len(),
{
    spec_u16_from_be_bytes(b.subrange(at, at + 2))
}

/// The big-endian 32-bit integer stored at offset `at` of `b`.
pub open spec fn read_u32_at(b: Seq<u8>, at: int) -> u32
    recommends
        0 <= at,
        at + 4 <= b.len(),
{
    spec_u32_from_be_bytes(b.subrange(at, at + 4))
}

/// The big-endian 64-bit integer stored at offset `at` of `b`.
pub open spec fn read_u64_at(b: Seq<u8>, at: int) -> u64
    recommends
        0 <= at,
        at + 8 <= b.len(),
{
    spec_u64_from_be_bytes(b.subrange(at, at + 8))
}

/// How a splice changes a byte sequence: the length is kept, the spliced-in
/// bytes stand at their offsets, and every byte outside the spliced range is
/// unchanged.
pub proof fn lemma_splice_bytes_facts(b: Seq<u8>, at: int, d: Seq<u8>)
    requires
        0 <= at,
        at + d.len() <= b.len(),
    ensures
        splice_bytes(b, at, d).len() == b.len(),
        forall|j: int| 0 <= j < d.len() ==> #[trigger] splice_bytes(b, at, d)[at + j] == d[j],
        forall|j: int|
            0 <= j < b.len() && !(at <= j < at + d.len()) ==> #[trigger] splice_bytes(b, at, d)[j]
                == b[j],
{
}

/// Decoding the big-endian bytes of a 16-bit integer reproduces it.
pub proof fn lemma_u16_be_bytes_round_trip(x: u16)
    ensures
        spec_u16_from_be_bytes(spec_u16_to_be_bytes(x)) == x,
{
    let b0 = ((x >> 8) & 0xff) as u8;
    let b1 = (x & 0xff) as u8;
    assert((((b0 as u16) << 8) | (b1 as u16)) as u16 == x) by (bit_vector)
        requires
            b0 == ((x >> 8) & 0xff) as u8,
            b1 == (x & 0xff) as u8,
    ;
}

/// Decoding the big-endian bytes of a 32-bit integer reproduces it.
pub proof fn lemma_u32_be_bytes_round_trip(x: u32)
    ensures
        spec_u32_from_be_bytes(spec_u32_to_be_bytes(x)) == x,
{
    let b0 = ((x >> 24) & 0xff) as u8;
    let b1 = ((x >> 16) & 0xff) as u8;
    let b2 = ((x >> 8) & 0xff) as u8;
    let b3 = (x & 0xff) as u8;
    assert((((b0 as u32) << 24) | ((b1 as u32) << 16) | ((b2 as u32) << 8) | (b3 as u32)) as u32
        == x) by (bit_vector)
        requires
            b0 == ((x >> 24) & 0xff) as u8,
            b1 == ((x >> 16) & 0xff) as u8,
            b2 == ((x >> 8) & 0xff) as u8,
            b3 == (x & 0xff) as u8,
    ;
}

/// Decoding the big-endian bytes of a 64-bit integer reproduces it.
pub proof fn lemma_u64_be_bytes_round_trip(x: u64)
    ensures
        spec_u64_from_be_bytes(spec_u64_to_be_bytes(x)) == x,
{
    let b0 = ((x >> 56) & 0xff) as u8;
    let b1 = ((x >> 48) & 0xff) as u8;
    let b2 = ((x >> 40) & 0xff) as u8;
    let b3 = ((x >> 32) & 0xff) as u8;
    let b4 = ((x >> 24) & 0xff) as u8;
    let b5 = ((x >> 16) & 0xff) as u8;
    let b6 = ((x >> 8) & 0xff) as u8;
    let b7 = (x & 0xff) as u8;
    assert((((b0 as u64) << 56) | ((b1 as u64) << 48) | ((b2 as u64) << 40) | ((b3 as u64) << 32)
        | ((b4 as u64) << 24) | ((b5 as u64) << 16) | ((b6 as u64) << 8) | (b7 as u64)) as u64
        == x) by (bit_vector)
        requires
            b0 == ((x >> 56) & 0xff) as u8,
            b1 == ((x >> 48) & 0xff) as u8,
            b2 == ((x >> 40) & 0xff) as u8,
            b3 == ((x >> 32) & 0xff) as u8,
            b4 == ((x >> 24) & 0xff) as u8,
            b5 == ((x >> 16) & 0xff) as u8,
            b6 == ((x >> 8) & 0xff) as u8,
            b7 == (x & 0xff) as u8,
    ;
}

/// Reading a byte back after writing it at the same offset reproduces the
/// value written.
pub proof fn lemma_u8_round_trip(b: Seq<u8>, at: int, x: u8)
    requires
        0 <= at < b.len(),
    ensures
        b.update(at, x)[at] == x,
{
}

/// Reading two bytes back as a big-endian 16-bit integer, after splicing in
/// the big-endian bytes of `x` at the same offset, reproduces `x`.
pub proof fn lemma_u16_round_trip(b: Seq<u8>, at: int, x: u16)
    requires
        0 <= at,
        at + 2 <= b.len(),
    ensures
        read_u16_at(splice_bytes(b, at, spec_u16_to_be_bytes(x)), at) == x,
{
    let s = splice_bytes(b, at, spec_u16_to_be_bytes(x));
    assert(s.subrange(at, at + 2) =~= spec_u16_to_be_bytes(x));
    lemma_u16_be_bytes_round_trip(x);
}

/// Reading four bytes back as a big-endian 32-bit integer, after splicing in
/// the big-endian bytes of `x` at the same offset, reproduces `x`.
pub proof fn lemma_u32_round_trip(b: Seq<u8>, at: int, x: u32)
    requires
        0 <= at,
        at + 4 <= b.len(),
    ensures
        read_u32_at(splice_bytes(b, at, spec_u32_to_be_bytes(x)), at) == x,
{
    let s = splice_bytes(b, at, spec_u32_to_be_bytes(x));
    assert(s.subrange(at, at + 4) =~= spec_u32_to_be_bytes(x));
    lemma_u32_be_bytes_round_trip(x);
}

/// Reading eight bytes back as a big-endian 64-bit integer, after splicing in
/// the big-endian bytes of `x` at the same offset, reproduces `x`.
pub proof fn lemma_u64_round_trip(b: Seq<u8>, at: int, x: u64)
    requires
        0 <= at,
        at + 8 <= b.len(),
    ensures
        read_u64_at(splice_bytes(b, at, spec_u64_to_be_bytes(x)), at) == x,
{
    let s = splice_bytes(b, at, spec_u64_to_be_bytes(x));
    assert(s.subrange(at, at + 8) =~= spec_u64_to_be_bytes(x));
    lemma_u64_be_bytes_round_trip(x);
}

/// An in-memory mirror of one on-disk page: a fixed-capacity byte buffer with
/// a sequential write cursor.
#[derive(Debug)]
pub struct RawPage {
    page_id: u32,
    data: Vec<u8>,
    pos: u32,
}

impl RawPage {
    /// The page's stable identity within the file.
    pub closed spec fn id(&self) -> u32 {
        self.page_id
    }

    /// The sequential write position.
    pub closed spec fn cursor(&self) -> u32 {
        self.pos
    }

    /// The page's contents.
    pub closed spec fn bytes(&self) -> Seq<u8> {
        self.data@
    }

    /// The fixed byte capacity, chosen at construction.
    pub open spec fn capacity(&self) -> nat {
        self.bytes().len()
    }

    /// A sequential write of `n` bytes fits: it stays within the capacity and
    /// the advanced cursor still fits in 32 bits.
    pub open spec fn fits(&self, n: nat) -> bool {
        self.cursor() + n <= self.capacity() && self.cursor() + n <= u32::MAX
    }

    /// The capacity is the length of a held vector, so it fits in `usize`.
    pub proof fn lemma_capacity_fits_usize(&self)
        ensures
            self.capacity() <= usize::MAX,
    {
        vstd::std_specs::vec::axiom_spec_len(&self.data);
    }

    /// A zero-filled page of exactly `size` bytes, with the cursor at 0.
    pub fn new(page_id: u32, size: u32) -> (r: RawPage)
        ensures
            r.id() == page_id,
            r.cursor() == 0,
            r.bytes() == Seq::new(size as nat, |i: int| 0u8),
    {
        let mut v: Vec<u8> = Vec::new();
        v.resize(size as usize, 0u8);
        proof {
            assert(v@ =~= Seq::new(size as nat, |i: int| 0u8));
        }
        RawPage { page_id, data: v, pos: 0 }
    }

    /// A page populated from bytes read elsewhere, with the cursor at 0.
    pub fn from_bytes(page_id: u32, data: Vec<u8>) -> (r: RawPage)
        requires
            data@.len() <= u32::MAX,
        ensures
            r.id() == page_id,
            r.cursor() == 0,
            r.bytes() == data@,
    {
        RawPage { page_id, data, pos: 0 }
    }

    /// The page's contents, for transfer to the backing file.
    pub fn as_slice(&self) -> (r: &[u8])
        ensures
            r@ == self.bytes(),
    {
        self.data.as_slice()
    }

    /// The page's stable identity within the file.
    pub fn page_id(&self) -> (r: u32)
        ensures
            r == self.id(),
    {
        self.page_id
    }

    /// Sequential write at the cursor.  All-or-nothing: if the bytes do not
    /// fit, the buffer and the cursor are left byte-for-byte unchanged.
    #[verifier::loop_isolation(false)]
    pub fn put(&mut self, data: &[u8]) -> (r: Result<(), SpaceNotEnough>)
        ensures
            (r is Ok) <==> old(self).fits(data@.len()),
            r is Ok ==> final(self).bytes() == splice_bytes(
                old(self).bytes(),
                old(self).cursor() as int,
                data@,
            ),
            r is Ok ==> final(self).cursor() == old(self).cursor() + data@.len(),
            r is Err ==> final(self).bytes() == old(self).bytes(),
            r is Err ==> final(self).cursor() == old(self).cursor(),
            final(self).id() == old(self).id(),
    {
        let pos = self.pos as usize;
        if pos > self.data.len() || data.len() > self.data.len() - pos || data.len() > (u32::MAX
            - self.pos) as usize {
            return Err(SpaceNotEnough);
        }
        let mut i: usize = 0;
        while i < data.len()
            invariant
                i <= data@.len(),
                self.page_id == old(self).page_id,
                self.pos == old(self).pos,
                self.data@.len() == old(self).data@.len(),
                forall|j: int|
                    0 <= j < self.data@.len() && !(pos <= j < pos + i) ==> self.data@[j] == old(
                        self,
                    ).data@[j],
                forall|j: int| 0 <= j < i ==> self.data@[pos + j] == data@[j],
            decreases data@.len() - i,
        {
            self.data.set(pos + i, data[i]);
            i = i + 1;
        }
        proof {
            assert(self.data@ =~= splice_bytes(old(self).data@, old(self).pos as int, data@));
        }
        self.pos = self.pos + data.len() as u32;
        Ok(())
    }

    /// Sequential write of the UTF-8 bytes of `str` at the cursor, with the
    /// same all-or-nothing contract as [`Self::put`].
    pub fn put_str(&mut self, str: &str) -> (r: Result<(), SpaceNotEnough>)
        ensures
            (r is Ok) <==> old(self).fits(str.spec_bytes().len()),
            r is Ok ==> final(self).bytes() == splice_bytes(
                old(self).bytes(),
                old(self).cursor() as int,
                str.spec_bytes(),
            ),
            r is Ok ==> final(self).cursor() == old(self).cursor() + str.spec_bytes().len(),
            r is Err ==> final(self).bytes() == old(self).bytes(),
            r is Err ==> final(self).cursor() == old(self).cursor(),
            final(self).id() == old(self).id(),
    {
        self.put(str.as_bytes())
    }

    /// The byte at absolute offset `pos`.  The offset is trusted: the caller
    /// must know it lies within the capacity.
    pub fn get_u8(&self, pos: usize) -> (r: u8)
        requires
            pos < self.capacity(),
        ensures
            r == self.bytes()[pos as int],
    {
        self.data[pos]
    }

    /// Writes one byte at the cursor, without advancing it.  The cursor is
    /// trusted to lie within the capacity.
    pub fn put_u8(&mut self, data: u8)
        requires
            old(self).cursor() < old(self).capacity(),
        ensures
            final(self).bytes() == old(self).bytes().update(old(self).cursor() as int, data),
            final(self).cursor() == old(self).cursor(),
            final(self).id() == old(self).id(),
    {
        self.data.set(self.pos as usize, data);
    }

    /// Sequential big-endian write of a 16-bit integer at the cursor, with
    /// the all-or-nothing contract of [`Self::put`].
    pub fn put_u16(&mut self, data: u16) -> (r: Result<(), SpaceNotEnough>)
        ensures
            (r is Ok) <==> old(self).fits(2),
            r is Ok ==> final(self).bytes() == splice_bytes(
                old(self).bytes(),
                old(self).cursor() as int,
                spec_u16_to_be_bytes(data),
            ),
            r is Ok ==> final(self).cursor() == old(self).cursor() + 2,
            r is Err ==> final(self).bytes() == old(self).bytes(),
            r is Err ==> final(self).cursor() == old(self).cursor(),
            final(self).id() == old(self).id(),
    {
        let mut buf: Vec<u8> = Vec::new();
        buf.push(((data >> 8) & 0xff) as u8);
        buf.push((data & 0xff) as u8);
        proof {
            assert(buf@ =~= spec_u16_to_be_bytes(data));
        }
        self.put(buf.as_slice())
    }

    /// The big-endian 16-bit integer at absolute offset `pos`.  The offset is
    /// trusted: the caller must know `pos + 2` lies within the capacity.
    pub fn get_u16(&self, pos: usize) -> (r: u16)
        requires
            pos + 2 <= self.capacity(),
        ensures
            r == read_u16_at(self.bytes(), pos as int),
    {
        proof {
            self.lemma_capacity_fits_usize();
        }
        let b0 = self.data[pos];
        let b1 = self.data[pos + 1];
        ((b0 as u16) << 8u16) | (b1 as u16)
    }

    /// Sequential big-endian write of a 32-bit integer at the cursor, with
    /// the all-or-nothing contract of [`Self::put`].
    pub fn put_u32(&mut self, data: u32) -> (r: Result<(), SpaceNotEnough>)
        ensures
            (r is Ok) <==> old(self).fits(4),
            r is Ok ==> final(self).bytes() == splice_bytes(
                old(self).bytes(),
                old(self).cursor() as int,
                spec_u32_to_be_bytes(data),
            ),
            r is Ok ==> final(self).cursor() == old(self).cursor() + 4,
            r is Err ==> final(self).bytes() == old(self).bytes(),
            r is Err ==> final(self).cursor() == old(self).cursor(),
            final(self).id() == old(self).id(),
    {
        let mut buf: Vec<u8> = Vec::new();
        buf.push(((data >> 24) & 0xff) as u8);
        buf.push(((data >> 16) & 0xff) as u8);
        buf.push(((data >> 8) & 0xff) as u8);
        buf.push((data & 0xff) as u8);
        proof {
            assert(buf@ =~= spec_u32_to_be_bytes(data));
        }
        self.put(buf.as_slice())
    }

    /// The big-endian 32-bit integer at absolute offset `pos`.  The offset is
    /// trusted: the caller must know `pos + 4` lies within the capacity.
    pub fn get_u32(&self, pos: usize) -> (r: u32)
        requires
            pos + 4 <= self.capacity(),
        ensures
            r == read_u32_at(self.bytes(), pos as int),
    {
        proof {
            self.lemma_capacity_fits_usize();
        }
        let b0 = self.data[pos];
        let b1 = self.data[pos + 1];
        let b2 = self.data[pos + 2];
        let b3 = self.data[pos + 3];
        ((b0 as u32) << 24u32) | ((b1 as u32) << 16u32) | ((b2 as u32) << 8u32) | (b3 as u32)
    }

    /// Sequential big-endian write of a 64-bit integer at the cursor, with
    /// the all-or-nothing contract of [`Self::put`].
    pub fn put_u64(&mut self, data: u64) -> (r: Result<(), SpaceNotEnough>)
        ensures
            (r is Ok) <==> old(self).fits(8),
            r is Ok ==> final(self).bytes() == splice_bytes(
                old(self).bytes(),
                old(self).cursor() as int,
                spec_u64_to_be_bytes(data),
            ),
            r is Ok ==> final(self).cursor() == old(self).cursor() + 8,
            r is Err ==> final(self).bytes() == old(self).bytes(),
            r is Err ==> final(self).cursor() == old(self).cursor(),
            final(self).id() == old(self).id(),
    {
        let mut buf: Vec<u8> = Vec::new();
        buf.push(((data >> 56) & 0xff) as u8);
        buf.push(((data >> 48) & 0xff) as u8);
        buf.push(((data >> 40) & 0xff) as u8);
        buf.push(((data >> 32) & 0xff) as u8);
        buf.push(((data >> 24) & 0xff) as u8);
        buf.push(((data >> 16) & 0xff) as u8);
        buf.push(((data >> 8) & 0xff) as u8);
        buf.push((data & 0xff) as u8);
        proof {
            assert(buf@ =~= spec_u64_to_be_bytes(data));
        }
        self.put(buf.as_slice())
    }

    /// The big-endian 64-bit integer at absolute offset `pos`.  The offset is
    /// trusted: the caller must know `pos + 8` lies within the capacity.
    pub fn get_u64(&self, pos: usize) -> (r: u64)
        requires
            pos + 8 <= self.capacity(),
        ensures
            r == read_u64_at(self.bytes(), pos as int),
    {
        proof {
            self.lemma_capacity_fits_usize();
        }
        let b0 = self.data[pos];
        let b1 = self.data[pos + 1];
        let b2 = self.data[pos + 2];
        let b3 = self.data[pos + 3];
        let b4 = self.data[pos + 4];
        let b5 = self.data[pos + 5];
        let b6 = self.data[pos + 6];
        let b7 = self.data[pos + 7];
        ((b0 as u64) << 56u64) | ((b1 as u64) << 48u64) | ((b2 as u64) << 40u64) | ((b3 as u64)
            << 32u64) | ((b4 as u64) << 24u64) | ((b5 as u64) << 16u64) | ((b6 as u64) << 8u64) | (
        b7 as u64)
    }

    /// Repositions the cursor.  No bounds check happens here: a later
    /// sequential write enforces the capacity.
    pub fn seek(&mut self, pos: u32)
        ensures
            final(self).bytes() == old(self).bytes(),
            final(self).cursor() == pos,
            final(self).id() == old(self).id(),
    {
        self.pos = pos;
    }

    /// The page's fixed byte capacity.
    pub fn len(&self) -> (r: usize)
        ensures
            r == self.capacity(),
    {
        self.data.len()
    }
}

} // verus!
