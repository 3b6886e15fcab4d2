//! Typed, chainable framing of content pages (collection and index-node
//! pages).
//!
//! Fixed header layout of a content page, integers big-endian:
//!
//! | offset | size | field                                      |
//! |--------|------|--------------------------------------------|
//! | 0      | 2    | magic key                                  |
//! | 16     | 1    | content type discriminant                  |
//! | 32     | 4    | next page id (0 meaning chain end)         |
//! | 64     | —    | payload, interpreted by the content type   |

use crate::page::CorruptPage;
use crate::page::RawPage;
use crate::page::read_u16_at;
use crate::page::read_u32_at;
use crate::page::spec_u16_to_be_bytes;
use crate::page::spec_u32_to_be_bytes;
use crate::page::splice_bytes;
use vstd::prelude::*;

verus! {

/// The four content-type discriminants a content page may carry.  Any other
/// stored byte is a fatal format inconsistency.
#[derive(Clone, Copy, Debug, PartialEq, Eq, Structural)]
pub enum ContentPageType {
    Undefined,
    FileHeader,
    Collection,
    BTreeNode,
}

impl ContentPageType {
    /// The byte that stands for this discriminant on disk.
    pub open spec fn code(self) -> u8 {
        match self {
            ContentPageType::Undefined => 0,
            ContentPageType::FileHeader => 1,
            ContentPageType::Collection => 2,
            ContentPageType::BTreeNode => 3,
        }
    }

    /// The discriminant a stored byte stands for, if any.
    pub open spec fn spec_from_code(data: u8) -> Option<ContentPageType> {
        if data == 0 {
            Some(ContentPageType::Undefined)
        } else if data == 1 {
            Some(ContentPageType::FileHeader)
        } else if data == 2 {
            Some(ContentPageType::Collection)
        } else if data == 3 {
            Some(ContentPageType::BTreeNode)
        } else {
            None
        }
    }

    /// Encodes the discriminant as its on-disk byte.
    pub fn to_u8(self) -> (r: u8)
        ensures
            r == self.code(),
    {
        match self {
            ContentPageType::Undefined => 0,
            ContentPageType::FileHeader => 1,
            ContentPageType::Collection => 2,
            ContentPageType::BTreeNode => 3,
        }
    }

    /// Decodes a stored byte.  A byte outside the four known discriminants
    /// marks a corrupt page.
    pub fn from_u8(data: u8) -> (r: Result<ContentPageType, CorruptPage>)
        ensures
            (r is Ok) == (data < 4),
            r matches Ok(t) ==> Some(t) == ContentPageType::spec_from_code(data),
    {
        match data {
            0 => Ok(ContentPageType::Undefined),
            1 => Ok(ContentPageType::FileHeader),
            2 => Ok(ContentPageType::Collection),
            3 => Ok(ContentPageType::BTreeNode),
            _ => Err(CorruptPage),
        }
    }
}

/// Each discriminant survives the byte round trip, and an unknown stored
/// byte decodes to none.
pub proof fn lemma_content_type_round_trip()
    ensures
        forall|t: ContentPageType|
            ContentPageType::spec_from_code(#[trigger] t.code()) == Some(t),
        forall|data: u8| data >= 4 ==> ContentPageType::spec_from_code(data) is None,
{
    assert forall|t: ContentPageType|
        ContentPageType::spec_from_code(#[trigger] t.code()) == Some(t) by {
        match t {
            ContentPageType::Undefined => {},
            ContentPageType::FileHeader => {},
            ContentPageType::Collection => {},
            ContentPageType::BTreeNode => {},
        }
    }
}

/// A typed, chainable frame over a fixed page buffer.  The identity of the
/// page it was created from is fixed at construction.
pub struct ContentPageWrapper {
    raw: RawPage,
    start_page_id: u32,
}

impl ContentPageWrapper {
    /// The framed page's contents.
    pub closed spec fn bytes(&self) -> Seq<u8> {
        self.raw.bytes()
    }

    /// The framed page's fixed byte capacity.
    pub open spec fn capacity(&self) -> nat {
        self.bytes().len()
    }

    /// The page id the frame was created from; immutable afterwards.
    pub closed spec fn start_id(&self) -> u32 {
        self.start_page_id
    }

    /// The stored magic key: the validation tag at offset 0.
    pub open spec fn magic(&self) -> u16 {
        read_u16_at(self.bytes(), 0)
    }

    /// The stored content-type byte at offset 16.
    pub open spec fn ty_code(&self) -> u8 {
        self.bytes()[16]
    }

    /// The stored forward link at offset 32; 0 means the chain ends here.
    pub open spec fn next_id(&self) -> u32 {
        read_u32_at(self.bytes(), 32)
    }

    /// Wraps an already-constructed page buffer, recording the page's own id
    /// as the frame's immutable starting id.
    pub fn new(page: RawPage) -> (r: ContentPageWrapper)
        ensures
            r.bytes() == page.bytes(),
            r.start_id() == page.id(),
    {
        let start_page_id = page.page_id();
        ContentPageWrapper { raw: page, start_page_id }
    }

    /// Reads the magic key, the tag by which a consumer validates that a
    /// loaded page genuinely is a content page.
    pub fn magic_key(&self) -> (r: u16)
        requires
            self.capacity() >= 2,
        ensures
            r == self.magic(),
    {
        self.raw.get_u16(0)
    }

    /// Writes the magic key at offset 0.
    pub fn set_magic_key(&mut self, key: u16)
        requires
            old(self).capacity() >= 2,
        ensures
            final(self).bytes() == splice_bytes(old(self).bytes(), 0, spec_u16_to_be_bytes(key)),
            final(self).start_id() == old(self).start_id(),
    {
        self.raw.seek(0);
        let _ = self.raw.put_u16(key);
    }

    /// Writes the forward link at offset 32.
    pub fn set_next_page_id(&mut self, next_pid: u32)
        requires
            old(self).capacity() >= 36,
        ensures
            final(self).bytes() == splice_bytes(
                old(self).bytes(),
                32,
                spec_u32_to_be_bytes(next_pid),
            ),
            final(self).start_id() == old(self).start_id(),
    {
        self.raw.seek(32);
        let _ = self.raw.put_u32(next_pid);
    }

    /// Reads the forward link.
    pub fn get_next_page_id(&self) -> (r: u32)
        requires
            self.capacity() >= 36,
        ensures
            r == self.next_id(),
    {
        self.raw.get_u32(32)
    }

    /// Reads the content type.  A stored byte outside the four known
    /// discriminants marks a corrupt page.
    pub fn ty(&self) -> (r: Result<ContentPageType, CorruptPage>)
        requires
            self.capacity() >= 17,
        ensures
            (r is Ok) == (self.ty_code() < 4),
            r matches Ok(t) ==> Some(t) == ContentPageType::spec_from_code(self.ty_code()),
    {
        let ty8 = self.raw.get_u8(16);
        ContentPageType::from_u8(ty8)
    }

    /// Writes the content type's byte at offset 16.
    pub fn set_ty(&mut self, ty: ContentPageType)
        requires
            old(self).capacity() >= 17,
        ensures
            final(self).bytes() == old(self).bytes().update(16, ty.code()),
            final(self).start_id() == old(self).start_id(),
    {
        let ty8 = ty.to_u8();
        self.raw.seek(16);
        self.raw.put_u8(ty8);
    }

    /// Follows the forward link through an explicit collection of loaded
    /// pages.  A frame whose link is 0 is terminal; otherwise the page whose
    /// id equals the link is handed back, or nothing when the collection
    /// does not hold it.
    #[verifier::loop_isolation(false)]
    pub fn next_page<'a>(&self, pages: &'a Vec<RawPage>) -> (r: Option<&'a RawPage>)
        requires
            self.capacity() >= 36,
        ensures
            self.next_id() == 0 ==> r is None,
            r matches Some(p) ==> self.next_id() != 0 && p.id() == self.next_id() && (exists|j: int|
                0 <= j < pages@.len() && pages@[j] == *p),
            self.next_id() != 0 && (exists|k: int|
                0 <= k < pages@.len() && pages@[k].id() == self.next_id()) ==> r is Some,
    {
        let next = self.get_next_page_id();
        if next == 0 {
            return None;
        }
        let mut k: usize = 0;
        while k < pages.len()
            invariant
                k <= pages@.len(),
                forall|j: int| 0 <= j < k ==> pages@[j].id() != next,
            decreases pages@.len() - k,
        {
            if pages[k].page_id() == next {
                return Some(&pages[k]);
            }
            k = k + 1;
        }
        None
    }
}

} // verus!
