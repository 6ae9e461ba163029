//! The store's bookkeeping: page size, free list and root record, and what
//! each page operation reads, writes and decides. The bytes themselves move
//! through whoever holds the backing file.
use vstd::prelude::*;
use crate::error::DalError;
use crate::free_list::{FreeList, FreeListView, decode_free_list, is_free_list_record};
use crate::metadata::{
    MetaData,
    META_PAGE_NUM,
    FREE_LIST_PAGE_NUM,
    decode_metadata,
    is_metadata_record,
};
use crate::codec::be_bytes;
use crate::page::{Page, file_after_write, file_read, lemma_read_after_write};

verus! {

/// Relies on page_size::get: the memory page size of this machine. Nothing is
/// promised of its value.
#[verifier::external_body]
fn system_page_size() -> (r: usize) {
    page_size::get()
}

/// `n` zero bytes.
pub open spec fn zeros(n: nat) -> Seq<u8> {
    Seq::new(n, |i: int| 0u8)
}

/// What the store keeps in memory: the page size, the free list and the page
/// that holds the free list.
pub ghost struct DalView {
    pub page_size: usize,
    pub free_list: FreeListView,
    pub free_list_page: usize,
}

impl DalView {
    /// The byte offset of page `num`.
    pub open spec fn offset_of(self, num: usize) -> nat {
        (num * self.page_size) as nat
    }

    /// Page `num` starts at an offset that a file offset can hold.
    pub open spec fn offset_fits(self, num: usize) -> bool {
        num * self.page_size <= u64::MAX
    }

    /// The bytes of `record` filled up with zeros to one page.
    pub open spec fn page_of(self, record: Seq<u8>) -> Seq<u8> {
        record + zeros((self.page_size - record.len()) as nat)
    }
}

/// The store's in-memory state.
#[derive(Debug)]
pub struct Dal {
    page_size: usize,
    free_list: FreeList,
    metadata: MetaData,
}

impl View for Dal {
    type V = DalView;

    closed spec fn view(&self) -> DalView {
        DalView {
            page_size: self.page_size,
            free_list: self.free_list@,
            free_list_page: self.metadata@,
        }
    }
}

impl Dal {
    /// The state of a new store with this machine's memory page size: the
    /// metadata in page 0, the free list in page 1, no other page handed out.
    pub fn new() -> (r: Dal)
        ensures
            r@.free_list == (FreeListView { max_page: FREE_LIST_PAGE_NUM, released: Seq::empty() }),
            r@.free_list_page == FREE_LIST_PAGE_NUM,
    {
        Dal::with_page_size(system_page_size())
    }

    /// The state of a new store with pages of `page_size` bytes: the metadata
    /// in page 0, the free list in page 1, no other page handed out.
    pub fn with_page_size(page_size: usize) -> (r: Dal)
        ensures
            r@ == (DalView {
                page_size,
                free_list: FreeListView { max_page: FREE_LIST_PAGE_NUM, released: Seq::empty() },
                free_list_page: FREE_LIST_PAGE_NUM,
            }),
    {
        Dal {
            page_size,
            free_list: FreeList::new(FREE_LIST_PAGE_NUM),
            metadata: MetaData::new(),
        }
    }

    /// The size of every page, in bytes.
    pub fn page_size(&self) -> (r: usize)
        ensures
            r == self@.page_size,
    {
        self.page_size
    }

    /// The page that holds the free list.
    pub fn free_list_page(&self) -> (r: usize)
        ensures
            r == self@.free_list_page,
    {
        self.metadata.free_list_page()
    }

    /// A page shell: number 0 and no bytes, with room for one page.
    pub fn allocate_empty_page(&self) -> (r: Page)
        ensures
            r.num == 0,
            r.data@ == Seq::<u8>::empty(),
    {
        Page { num: 0, data: Vec::with_capacity(self.page_size) }
    }

    /// Whether a page number can be handed out.
    pub fn can_allocate(&self) -> (r: bool)
        ensures
            r == self@.free_list.can_allocate(),
    {
        self.free_list.can_allocate()
    }

    /// Hands out a page number, reusing the most recently released page first.
    pub fn get_next_page(&mut self) -> (r: usize)
        requires
            old(self)@.free_list.can_allocate(),
        ensures
            r == old(self)@.free_list.next_page(),
            final(self)@ == (DalView { free_list: old(self)@.free_list.after_next(), ..old(self)@ }),
    {
        self.free_list.get_next_page()
    }

    /// Gives `page_num` back for reuse.
    pub fn release_page(&mut self, page_num: usize)
        ensures
            final(self)@ == (DalView {
                free_list: old(self)@.free_list.after_release(page_num),
                ..old(self)@
            }),
    {
        self.free_list.release_page(page_num)
    }

    /// The byte offset of page `page_num` in the backing file.
    pub fn page_offset(&self, page_num: usize) -> (r: Result<u64, DalError>)
        ensures
            self@.offset_fits(page_num) ==> r == Ok::<u64, DalError>(
                self@.offset_of(page_num) as u64,
            ),
            !self@.offset_fits(page_num) ==> r == Err::<u64, DalError>(DalError::OffsetOverflow),
    {
        let page_size = self.page_size as u64;
        let num = page_num as u64;
        if page_size != 0 && num > u64::MAX / page_size {
            assert(num * page_size > u64::MAX) by (nonlinear_arith)
                requires
                    page_size > 0,
                    num > u64::MAX / page_size,
            ;
            return Err(DalError::OffsetOverflow);
        }
        assert(num * page_size <= u64::MAX) by (nonlinear_arith)
            requires
                page_size == 0 || num <= u64::MAX / page_size,
        ;
        Ok(num * page_size)
    }

    /// Builds page `page_num` from `data`, the bytes read at its offset: at
    /// most one page, fewer where the file ends first. Fewer than a page
    /// fails, as a read past the end of the store or of a cut file.
    pub fn read_page(&self, page_num: usize, data: Vec<u8>) -> (r: Result<Page, DalError>)
        ensures
            data@.len() == self@.page_size ==> (r matches Ok(p) && p.num == page_num && p.data@
                == data@),
            data@.len() < self@.page_size ==> r == Err::<Page, DalError>(DalError::TruncatedRead),
            data@.len() > self@.page_size ==> r == Err::<Page, DalError>(
                DalError::InvalidPageSize,
            ),
    {
        if data.len() < self.page_size {
            return Err(DalError::TruncatedRead);
        }
        if data.len() > self.page_size {
            return Err(DalError::InvalidPageSize);
        }
        let mut page = self.allocate_empty_page();
        page.num = page_num;
        page.data = data;
        Ok(page)
    }

    /// Checks `page` before it is written, and gives the byte offset where its
    /// bytes go. A page that is not exactly one page long is refused, so that
    /// nothing of the file changes.
    pub fn write_page(&self, page: &Page) -> (r: Result<u64, DalError>)
        ensures
            page.data@.len() != self@.page_size ==> r == Err::<u64, DalError>(
                DalError::InvalidPageSize,
            ),
            page.data@.len() == self@.page_size && self@.offset_fits(page.num) ==> r == Ok::<
                u64,
                DalError,
            >(self@.offset_of(page.num) as u64),
            page.data@.len() == self@.page_size && !self@.offset_fits(page.num) ==> r == Err::<
                u64,
                DalError,
            >(DalError::OffsetOverflow),
    {
        if page.data.len() != self.page_size {
            return Err(DalError::InvalidPageSize);
        }
        self.page_offset(page.num)
    }

    /// Fills `data` up with zeros to one page.
    fn pad_to_page(&self, data: &mut Vec<u8>)
        requires
            old(data)@.len() <= self@.page_size,
        ensures
            final(data)@ == self@.page_of(old(data)@),
    {
        let ghost start = data@;
        while data.len() < self.page_size
            invariant
                start.len() <= data@.len() <= self@.page_size,
                data@ == start + zeros((data@.len() - start.len()) as nat),
            decreases self@.page_size - data@.len(),
        {
            data.push(0u8);
            assert(data@ =~= start + zeros((data@.len() - start.len()) as nat));
        }
    }

    /// The metadata page: page 0, holding the free-list page number. Fails
    /// where a page is too small to hold it.
    pub fn write_metadata(&self) -> (r: Result<Page, DalError>)
        ensures
            self@.page_size >= 8 ==> (r matches Ok(p) && p.num == META_PAGE_NUM && p.data@
                == self@.page_of(be_bytes(self@.free_list_page as u64))),
            self@.page_size < 8 ==> r == Err::<Page, DalError>(DalError::InvalidPageSize),
    {
        if self.page_size < 8 {
            return Err(DalError::InvalidPageSize);
        }
        let mut page = self.allocate_empty_page();
        page.num = META_PAGE_NUM;
        self.metadata.serialize(&mut page.data);
        self.pad_to_page(&mut page.data);
        Ok(page)
    }

    /// The free-list page: the page the metadata points to, holding the free
    /// list's record. Fails where a page is too small to hold it.
    pub fn write_free_list(&self) -> (r: Result<Page, DalError>)
        ensures
            self@.free_list.encoding().len() <= self@.page_size ==> (r matches Ok(p) && p.num
                == self@.free_list_page && p.data@ == self@.page_of(self@.free_list.encoding())),
            self@.free_list.encoding().len() > self@.page_size ==> r == Err::<Page, DalError>(
                DalError::InvalidPageSize,
            ),
    {
        let mut page = self.allocate_empty_page();
        self.free_list.serialize(&mut page.data);
        if page.data.len() > self.page_size {
            return Err(DalError::InvalidPageSize);
        }
        page.num = self.metadata.free_list_page();
        self.pad_to_page(&mut page.data);
        Ok(page)
    }

    /// Loads the metadata from the bytes of page 0. An empty page leaves it as
    /// it is.
    pub fn read_metadata(&mut self, page: &Page) -> (r: Result<(), DalError>)
        ensures
            is_metadata_record(page.data@) ==> r is Ok && final(self)@ == (DalView {
                free_list_page: decode_metadata(page.data@, old(self)@.free_list_page),
                ..old(self)@
            }),
            !is_metadata_record(page.data@) ==> r == Err::<(), DalError>(
                DalError::CorruptMetaData,
            ) && final(self)@ == old(self)@,
    {
        self.metadata.deserialize(&page.data)
    }

    /// Loads the free list from the bytes of the free-list page.
    pub fn read_free_list(&mut self, page: Page) -> (r: Result<(), DalError>)
        ensures
            is_free_list_record(page.data@) ==> r is Ok && final(self)@ == (DalView {
                free_list: decode_free_list(page.data@),
                ..old(self)@
            }),
            !is_free_list_record(page.data@) ==> r == Err::<(), DalError>(
                DalError::CorruptFreeList,
            ) && final(self)@ == old(self)@,
    {
        self.free_list.deserialize(page.data)
    }
}

/// A page written with one page of bytes at its offset reads back as those
/// bytes, whatever the file held before.
pub proof fn lemma_write_read_identity(d: DalView, file: Seq<u8>, num: usize, data: Seq<u8>)
    requires
        data.len() == d.page_size,
    ensures
        file_read(file_after_write(file, d.offset_of(num), data), d.offset_of(num), d.page_size as nat)
            == data,
{
    lemma_read_after_write(file, d.offset_of(num), data);
}

} // verus!
