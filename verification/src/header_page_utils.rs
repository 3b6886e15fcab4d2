//! Codec for the distinguished header page (page id 0), and the free list
//! decoded from its embedded region.
//!
//! Layout, every multi-byte integer big-endian:
//!
//! | offset | size    | field                               |
//! |--------|---------|-------------------------------------|
//! | 0      | 32      | format signature, zero-terminated   |
//! | 32     | 4       | version, four independent bytes     |
//! | 40     | 4       | sector size                         |
//! | 44     | 4       | page size                           |
//! | 2048   | 4       | free-list entry count               |
//! | 2052   | 4       | free-list overflow page link        |
//! | 2056   | 4 each  | inline free page ids                |

use crate::page::CorruptPage;
use crate::page::RawPage;
use crate::page::lemma_splice_bytes_facts;
use crate::page::lemma_u32_be_bytes_round_trip;
use crate::page::read_u32_at;
use crate::page::spec_u32_to_be_bytes;
use crate::page::splice_bytes;
use vstd::prelude::*;
use vstd::string::StringSliceAdditionalSpecFns;
use vstd::utf8::decode_utf8;
use vstd::utf8::encode_utf8;
use vstd::utf8::encode_utf8_decode_utf8;
use vstd::utf8::encode_utf8_valid_utf8;
use vstd::utf8::is_ascii_chars;
use vstd::utf8::is_ascii_chars_encode_utf8;
use vstd::utf8::valid_utf8;

verus! {

/// The format signature written at offset 0 of a freshly initialized header
/// page.
pub open spec fn header_title_chars() -> Seq<char> {
    "PipeappleDB Format v0.1"@
}

/// The UTF-8 bytes of the format signature.
pub open spec fn header_title_bytes() -> Seq<u8> {
    encode_utf8(header_title_chars())
}

/// The offset of the first zero byte among the first 32 bytes of `b`, or 32
/// when none of them is zero, scanning upward from offset `i`.
pub open spec fn first_zero_index(b: Seq<u8>, i: int) -> int
    recommends
        0 <= i <= 32,
        b.len() >= 32,
    decreases 32 - i,
{
    if i >= 32 {
        32
    } else if b[i] == 0 {
        i
    } else {
        first_zero_index(b, i + 1)
    }
}

/// The title region is well formed: a zero byte stands among its 32 bytes.
pub open spec fn title_found(b: Seq<u8>) -> bool {
    first_zero_index(b, 0) < 32
}

/// The title's bytes: everything before the first zero of the title region.
pub open spec fn spec_title_bytes(b: Seq<u8>) -> Seq<u8> {
    b.subrange(0, first_zero_index(b, 0))
}

/// The free-list entry count stored in the header region.
pub open spec fn spec_free_list_size(b: Seq<u8>) -> u32 {
    read_u32_at(b, 2048)
}

/// The overflow free-list page link stored in the header region.
pub open spec fn spec_free_list_link(b: Seq<u8>) -> u32 {
    read_u32_at(b, 2052)
}

/// The `i`-th inline free page id stored in the header region.
pub open spec fn spec_free_list_entry(b: Seq<u8>, i: int) -> u32 {
    read_u32_at(b, 2056 + 4 * i)
}

proof fn lemma_first_zero_index_from(b: Seq<u8>, i: int, k: int)
    requires
        b.len() >= 32,
        0 <= i <= k <= 32,
        forall|j: int| i <= j < k ==> b[j] != 0,
        k < 32 ==> b[k] == 0,
    ensures
        first_zero_index(b, i) == k,
    decreases k - i,
{
    if i < k {
        lemma_first_zero_index_from(b, i + 1, k);
    }
}

/// Relies on String::from_utf8_lossy: bytes that are valid UTF-8 decode to
/// exactly the character sequence they encode.
#[verifier::external_body]
fn decode_utf8_lossy(bytes: &[u8]) -> (r: String)
    ensures
        valid_utf8(bytes@) ==> r@ == decode_utf8(bytes@),
{
    String::from_utf8_lossy(bytes).to_string()
}

/// The header bytes after `init`: the format signature at 0, a zeroed
/// four-byte version at 32, and 4096 as both sector size (at 40) and page
/// size (at 44).
pub open spec fn spec_header_init_bytes(b: Seq<u8>) -> Seq<u8> {
    splice_bytes(
        splice_bytes(
            splice_bytes(
                splice_bytes(b, 0, header_title_bytes()),
                32,
                seq![0u8, 0u8, 0u8, 0u8],
            ),
            40,
            spec_u32_to_be_bytes(4096),
        ),
        44,
        spec_u32_to_be_bytes(4096),
    )
}

/// Establishes the canonical freshly-created state of the header page: the
/// format signature, a zeroed version, and a sector and page size of 4096.
pub fn init(page: &mut RawPage)
    requires
        old(page).capacity() >= 48,
    ensures
        final(page).id() == old(page).id(),
        final(page).bytes() == spec_header_init_bytes(old(page).bytes()),
        final(page).cursor() == 48,
{
    proof {
        reveal_strlit("PipeappleDB Format v0.1");
        assert(is_ascii_chars(header_title_chars()));
        is_ascii_chars_encode_utf8(header_title_chars());
    }
    set_title(page, "PipeappleDB Format v0.1");
    let mut version: Vec<u8> = Vec::new();
    version.push(0);
    version.push(0);
    version.push(0);
    version.push(0);
    proof {
        assert(version@ =~= seq![0u8, 0u8, 0u8, 0u8]);
    }
    set_version(page, version.as_slice());
    set_sector_size(page, 4096);
    set_page_size(page, 4096);
}

/// Writes the title's UTF-8 bytes sequentially from offset 0.  A title that
/// does not fit within the capacity leaves the page unchanged, as a
/// sequential write does.
pub fn set_title(page: &mut RawPage, title: &str)
    ensures
        final(page).id() == old(page).id(),
        title.spec_bytes().len() <= old(page).capacity() && title.spec_bytes().len() <= u32::MAX
            ==> final(page).bytes() == splice_bytes(old(page).bytes(), 0, title.spec_bytes())
            && final(page).cursor() == title.spec_bytes().len(),
        !(title.spec_bytes().len() <= old(page).capacity() && title.spec_bytes().len()
            <= u32::MAX) ==> final(page).bytes() == old(page).bytes() && final(page).cursor()
            == 0,
{
    page.seek(0);
    let _ = page.put_str(title);
}

/// Reads the title back: everything before the first zero byte of the
/// 32-byte title region, decoded as UTF-8 (lossily where invalid).  A region
/// with no zero byte marks a corrupted or foreign file.
#[verifier::loop_isolation(false)]
pub fn get_title(page: &RawPage) -> (r: Result<String, CorruptPage>)
    requires
        page.capacity() >= 32,
    ensures
        (r is Ok) == title_found(page.bytes()),
        r matches Ok(title) ==> (valid_utf8(spec_title_bytes(page.bytes())) ==> title@
            == decode_utf8(spec_title_bytes(page.bytes()))),
{
    let mut i: usize = 0;
    while i < 32 && page.get_u8(i) != 0
        invariant
            i <= 32,
            forall|j: int| 0 <= j < i ==> page.bytes()[j] != 0,
        decreases 32 - i,
    {
        i = i + 1;
    }
    proof {
        lemma_first_zero_index_from(page.bytes(), 0, i as int);
    }
    if i == 32 {
        return Err(CorruptPage);
    }
    let mut prefix: Vec<u8> = Vec::new();
    let mut j: usize = 0;
    while j < i
        invariant
            j <= i,
            i < 32,
            prefix@ =~= page.bytes().subrange(0, j as int),
        decreases i - j,
    {
        prefix.push(page.get_u8(j));
        j = j + 1;
    }
    Ok(decode_utf8_lossy(prefix.as_slice()))
}

/// Writes `version` sequentially at offset 32.  The canonical field is four
/// independent bytes.
pub fn set_version(page: &mut RawPage, version: &[u8])
    ensures
        final(page).id() == old(page).id(),
        32 + version@.len() <= old(page).capacity() && 32 + version@.len() <= u32::MAX ==> final(page).bytes() == splice_bytes(old(page).bytes(), 32, version@) && final(page).cursor() == 32
            + version@.len(),
        !(32 + version@.len() <= old(page).capacity() && 32 + version@.len() <= u32::MAX)
            ==> final(page).bytes() == old(page).bytes() && final(page).cursor() == 32,
{
    page.seek(32);
    let _ = page.put(version);
}

/// Reads the four version bytes at offset 32.
pub fn get_version(page: &RawPage) -> (r: [u8; 4])
    requires
        page.capacity() >= 36,
    ensures
        r@ == page.bytes().subrange(32, 36),
{
    let version: [u8; 4] = [page.get_u8(32), page.get_u8(33), page.get_u8(34), page.get_u8(35)];
    proof {
        assert(version@ =~= page.bytes().subrange(32, 36));
    }
    version
}

/// Writes the sector size as a big-endian 32-bit field at offset 40.
pub fn set_sector_size(page: &mut RawPage, sector_size: u32)
    ensures
        final(page).id() == old(page).id(),
        44 <= old(page).capacity() ==> final(page).bytes() == splice_bytes(
            old(page).bytes(),
            40,
            spec_u32_to_be_bytes(sector_size),
        ) && final(page).cursor() == 44,
        old(page).capacity() < 44 ==> final(page).bytes() == old(page).bytes() && final(page).cursor() == 40,
{
    page.seek(40);
    let _ = page.put_u32(sector_size);
}

/// Reads the sector size: the big-endian 32-bit field at offset 40.
pub fn get_sector_size(page: &RawPage) -> (r: u32)
    requires
        page.capacity() >= 44,
    ensures
        r == read_u32_at(page.bytes(), 40),
{
    page.get_u32(40)
}

/// Writes the page size as a big-endian 32-bit field at offset 44.
pub fn set_page_size(page: &mut RawPage, page_size: u32)
    ensures
        final(page).id() == old(page).id(),
        48 <= old(page).capacity() ==> final(page).bytes() == splice_bytes(
            old(page).bytes(),
            44,
            spec_u32_to_be_bytes(page_size),
        ) && final(page).cursor() == 48,
        old(page).capacity() < 48 ==> final(page).bytes() == old(page).bytes() && final(page).cursor() == 44,
{
    page.seek(44);
    let _ = page.put_u32(page_size);
}

/// Reads the page size: the big-endian 32-bit field at offset 44.
pub fn get_page_size(page: &RawPage) -> (r: u32)
    requires
        page.capacity() >= 48,
    ensures
        r == read_u32_at(page.bytes(), 44),
{
    page.get_u32(44)
}

/// Reads the free-list entry count: the big-endian 32-bit field at offset
/// 2048.
pub fn get_free_list_size(page: &RawPage) -> (r: u32)
    requires
        page.capacity() >= 2052,
    ensures
        r == spec_free_list_size(page.bytes()),
{
    page.get_u32(2048)
}

/// Writes the free-list entry count at offset 2048.
pub fn set_free_list_size(page: &mut RawPage, size: u32)
    ensures
        final(page).id() == old(page).id(),
        2052 <= old(page).capacity() ==> final(page).bytes() == splice_bytes(
            old(page).bytes(),
            2048,
            spec_u32_to_be_bytes(size),
        ) && final(page).cursor() == 2052,
        old(page).capacity() < 2052 ==> final(page).bytes() == old(page).bytes() && final(page).cursor() == 2048,
{
    page.seek(2048);
    let _ = page.put_u32(size);
}

/// Reads the `index`-th inline free page id, at offset `2056 + 4 * index`.
/// The offset is trusted: the caller must know the entry lies within the
/// capacity, as it does whenever `index` is below the stored entry count of a
/// page large enough to hold that many entries.
pub fn get_free_list_content(page: &RawPage, index: u32) -> (r: u32)
    requires
        2056 + 4 * (index as int) + 4 <= page.capacity(),
    ensures
        r == spec_free_list_entry(page.bytes(), index as int),
{
    proof {
        page.lemma_capacity_fits_usize();
    }
    let offset: usize = (index as usize) * 4 + 2048 + 8;
    page.get_u32(offset)
}

/// The in-memory shape of the free list: the link to an overflow free-list
/// page (0 meaning none) and the ordered reclaimable page ids.
pub struct FreeList {
    pub free_list_page_id: u32,
    pub data: Vec<u32>,
}

impl FreeList {
    /// An empty free list with no overflow page.
    pub fn new() -> (r: FreeList)
        ensures
            r.free_list_page_id == 0,
            r.data@ == Seq::<u32>::empty(),
    {
        FreeList { free_list_page_id: 0, data: Vec::new() }
    }

    /// Reconstructs the free list from the header page's embedded region:
    /// the size field, the overflow-link field, then exactly `size`
    /// big-endian 32-bit entries.  A stored size whose entries would run
    /// past the page's capacity marks a corrupt header.
    #[verifier::loop_isolation(false)]
    pub fn from_raw(raw_page: &RawPage) -> (r: Result<FreeList, CorruptPage>)
        ensures
            (r is Ok) <==> (raw_page.capacity() >= 2056 && 2056 + 4 * (spec_free_list_size(
                raw_page.bytes(),
            ) as int) <= raw_page.capacity()),
            r matches Ok(fl) ==> fl.free_list_page_id == spec_free_list_link(raw_page.bytes())
                && fl.data@.len() == spec_free_list_size(raw_page.bytes()) && (forall|i: int|
                0 <= i < fl.data@.len() ==> fl.data@[i] == spec_free_list_entry(
                    raw_page.bytes(),
                    i,
                )),
    {
        let cap = raw_page.len();
        if cap < 2056 {
            return Err(CorruptPage);
        }
        let size = raw_page.get_u32(2048);
        if (size as u64) * 4 + 2056 > cap as u64 {
            return Err(CorruptPage);
        }
        let free_list_page_id = raw_page.get_u32(2052);
        let mut data: Vec<u32> = Vec::new();
        let mut i: u32 = 0;
        while i < size
            invariant
                i <= size,
                data@.len() == i,
                forall|k: int|
                    0 <= k < i ==> data@[k] == spec_free_list_entry(raw_page.bytes(), k),
            decreases size - i,
        {
            let offset: usize = 2056 + (i as usize) * 4;
            data.push(raw_page.get_u32(offset));
            i = i + 1;
        }
        Ok(FreeList { free_list_page_id, data })
    }
}

/// The free-list region bytes that encode a count, a link, and the entries,
/// written over `b` at the region's offset.
pub open spec fn spec_free_list_bytes(b: Seq<u8>, link: u32, es: Seq<u32>) -> Seq<u8> {
    splice_bytes(
        b,
        2048,
        spec_u32_to_be_bytes(es.len() as u32) + spec_u32_to_be_bytes(link)
            + spec_entries_be_bytes(es),
    )
}

/// The big-endian bytes of the inline entries, packed contiguously.
pub open spec fn spec_entries_be_bytes(es: Seq<u32>) -> Seq<u8>
    decreases es.len(),
{
    if es.len() == 0 {
        Seq::empty()
    } else {
        spec_u32_to_be_bytes(es[0]) + spec_entries_be_bytes(es.drop_first())
    }
}

proof fn lemma_entries_be_bytes(es: Seq<u32>)
    ensures
        spec_entries_be_bytes(es).len() == 4 * es.len(),
        forall|i: int|
            0 <= i < es.len() ==> #[trigger] spec_entries_be_bytes(es).subrange(4 * i, 4 * i + 4)
                =~= spec_u32_to_be_bytes(es[i]),
    decreases es.len(),
{
    if es.len() > 0 {
        lemma_entries_be_bytes(es.drop_first());
        assert forall|i: int| 0 <= i < es.len() implies #[trigger] spec_entries_be_bytes(
            es,
        ).subrange(4 * i, 4 * i + 4) =~= spec_u32_to_be_bytes(es[i]) by {
            if i == 0 {
                assert(spec_entries_be_bytes(es).subrange(0, 4) =~= spec_u32_to_be_bytes(es[0]));
            } else {
                assert(spec_entries_be_bytes(es).subrange(4 * i, 4 * i + 4) =~= spec_entries_be_bytes(
                    es.drop_first(),
                ).subrange(4 * (i - 1), 4 * (i - 1) + 4));
                assert(spec_entries_be_bytes(es.drop_first()).subrange(4 * (i - 1), 4 * (i - 1) + 4)
                    =~= spec_u32_to_be_bytes(es.drop_first()[i - 1]));
            }
        }
    }
}

/// Free-list round trip: writing a count, a link, and the entries into the
/// header region, then decoding that region, yields back the same link and
/// the same entries, in content and in order.
pub proof fn lemma_free_list_round_trip(b: Seq<u8>, link: u32, es: Seq<u32>)
    requires
        es.len() <= u32::MAX,
        2056 + 4 * es.len() <= b.len(),
    ensures
        spec_free_list_size(spec_free_list_bytes(b, link, es)) == es.len(),
        spec_free_list_link(spec_free_list_bytes(b, link, es)) == link,
        forall|i: int|
            0 <= i < es.len() ==> #[trigger] spec_free_list_entry(
                spec_free_list_bytes(b, link, es),
                i,
            ) == es[i],
{
    let d = spec_u32_to_be_bytes(es.len() as u32) + spec_u32_to_be_bytes(link)
        + spec_entries_be_bytes(es);
    let b2 = spec_free_list_bytes(b, link, es);
    lemma_entries_be_bytes(es);
    lemma_splice_bytes_facts(b, 2048, d);
    assert(b2.subrange(2048, 2052) =~= spec_u32_to_be_bytes(es.len() as u32));
    lemma_u32_be_bytes_round_trip(es.len() as u32);
    assert(b2.subrange(2052, 2056) =~= spec_u32_to_be_bytes(link));
    lemma_u32_be_bytes_round_trip(link);
    assert forall|i: int| 0 <= i < es.len() implies #[trigger] spec_free_list_entry(b2, i)
        == es[i] by {
        assert(b2.subrange(2056 + 4 * i, 2056 + 4 * i + 4) =~= spec_entries_be_bytes(es).subrange(
            4 * i,
            4 * i + 4,
        ));
        lemma_u32_be_bytes_round_trip(es[i]);
    }
}

/// Title round trip: writing a title whose UTF-8 bytes hold no zero and fit
/// strictly within the 32-byte title region, onto a page whose byte just
/// past the written title is zero, and reading the region back, yields the
/// identical title.
pub proof fn lemma_title_round_trip(b: Seq<u8>, title: Seq<char>)
    requires
        b.len() >= 32,
        encode_utf8(title).len() < 32,
        forall|i: int| 0 <= i < encode_utf8(title).len() ==> encode_utf8(title)[i] != 0,
        b[encode_utf8(title).len() as int] == 0,
    ensures
        title_found(splice_bytes(b, 0, encode_utf8(title))),
        spec_title_bytes(splice_bytes(b, 0, encode_utf8(title))) == encode_utf8(title),
        valid_utf8(encode_utf8(title)),
        decode_utf8(encode_utf8(title)) == title,
{
    let d = encode_utf8(title);
    let n = d.len() as int;
    let b2 = splice_bytes(b, 0, d);
    lemma_splice_bytes_facts(b, 0, d);
    assert(forall|j: int| 0 <= j < n ==> b2[j] != 0);
    assert(b2[n] == 0);
    lemma_first_zero_index_from(b2, 0, n);
    assert(b2.subrange(0, n) =~= d);
    encode_utf8_valid_utf8(title);
    encode_utf8_decode_utf8(title);
}

/// A freshly created header page, after `init`, reads back the canonical
/// state: the title is the format signature, the version is four zero
/// bytes, the sector size and the page size are 4096, and the (still
/// untouched) free-list size decodes from zero-filled bytes as 0.
pub proof fn lemma_init_header(b: Seq<u8>)
    requires
        b.len() == 4096,
        forall|i: int| 0 <= i < b.len() ==> b[i] == 0,
    ensures
        title_found(spec_header_init_bytes(b)),
        valid_utf8(spec_title_bytes(spec_header_init_bytes(b))),
        decode_utf8(spec_title_bytes(spec_header_init_bytes(b))) == header_title_chars(),
        spec_header_init_bytes(b).subrange(32, 36) =~= seq![0u8, 0u8, 0u8, 0u8],
        read_u32_at(spec_header_init_bytes(b), 40) == 4096,
        read_u32_at(spec_header_init_bytes(b), 44) == 4096,
        spec_free_list_size(spec_header_init_bytes(b)) == 0,
{
    reveal_strlit("PipeappleDB Format v0.1");
    assert(is_ascii_chars(header_title_chars()));
    is_ascii_chars_encode_utf8(header_title_chars());
    let t = header_title_bytes();
    let b1 = splice_bytes(b, 0, t);
    let b2 = splice_bytes(b1, 32, seq![0u8, 0u8, 0u8, 0u8]);
    let b3 = splice_bytes(b2, 40, spec_u32_to_be_bytes(4096));
    let b4 = splice_bytes(b3, 44, spec_u32_to_be_bytes(4096));
    lemma_splice_bytes_facts(b, 0, t);
    lemma_splice_bytes_facts(b1, 32, seq![0u8, 0u8, 0u8, 0u8]);
    lemma_splice_bytes_facts(b2, 40, spec_u32_to_be_bytes(4096));
    lemma_splice_bytes_facts(b3, 44, spec_u32_to_be_bytes(4096));
    assert(spec_header_init_bytes(b) == b4);
    // the title region: 23 signature bytes, then the page's own zero
    assert(forall|j: int| 0 <= j < 23 ==> b4[j] == t[j]);
    assert(b4[23] == 0);
    lemma_first_zero_index_from(b4, 0, 23);
    assert(b4.subrange(0, 23) =~= t);
    encode_utf8_valid_utf8(header_title_chars());
    encode_utf8_decode_utf8(header_title_chars());
    // the version bytes
    assert(b4.subrange(32, 36) =~= seq![0u8, 0u8, 0u8, 0u8]);
    // sector size and page size
    assert(b4.subrange(40, 44) =~= spec_u32_to_be_bytes(4096));
    assert(b4.subrange(44, 48) =~= spec_u32_to_be_bytes(4096));
    lemma_u32_be_bytes_round_trip(4096);
    // the free-list size field still holds the page's zero fill
    assert(b4.subrange(2048, 2052) =~= seq![0u8, 0u8, 0u8, 0u8]);
    assert((((0u8 as u32) << 24) | ((0u8 as u32) << 16) | ((0u8 as u32) << 8) | (
    0u8 as u32)) as u32 == 0) by (bit_vector);
}

} // verus!
