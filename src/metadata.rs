//! The root record of the store: which page holds the free list.
use vstd::prelude::*;
use crate::codec::{be_bytes, be_value_at, push_be_u64, read_be_u64, lemma_be_value_of};
use crate::error::DalError;

verus! {

/// The page that holds the metadata record.
pub const META_PAGE_NUM: usize = 0;

/// The page that holds the free list of a newly created store.
pub const FREE_LIST_PAGE_NUM: usize = 1;

/// `data` is a metadata record: empty (nothing written yet), or starting with
/// eight bytes that hold a page number.
pub open spec fn is_metadata_record(data: Seq<u8>) -> bool {
    data.len() == 0 || (data.len() >= 8 && be_value_at(data, 0) <= usize::MAX)
}

/// The free-list page that the record `data` points to, where `current` is the
/// one held before reading it.
pub open spec fn decode_metadata(data: Seq<u8>, current: usize) -> usize {
    if data.len() == 0 {
        current
    } else {
        be_value_at(data, 0) as usize
    }
}

/// The root record: the page number that holds the free list.
#[derive(Debug)]
pub struct MetaData {
    free_list_page: usize,
}

impl View for MetaData {
    type V = usize;

    /// The page number that holds the free list.
    closed spec fn view(&self) -> usize {
        self.free_list_page
    }
}

impl MetaData {
    /// The record of a new store, whose free list has a page of its own.
    pub fn new() -> (r: MetaData)
        ensures
            r@ == FREE_LIST_PAGE_NUM,
    {
        MetaData { free_list_page: FREE_LIST_PAGE_NUM }
    }

    /// The page number that holds the free list.
    pub fn free_list_page(&self) -> (r: usize)
        ensures
            r == self@,
    {
        self.free_list_page
    }

    /// Appends this record to `buffer`: the free-list page number in eight
    /// big-endian bytes.
    pub fn serialize(&self, buffer: &mut Vec<u8>)
        ensures
            final(buffer)@ == old(buffer)@ + be_bytes(self@ as u64),
    {
        push_be_u64(buffer, self.free_list_page as u64);
    }

    /// Reads the record at the start of `buffer`. An empty buffer leaves the
    /// record as it is; one too short to hold a page number fails.
    pub fn deserialize(&mut self, buffer: &Vec<u8>) -> (r: Result<(), DalError>)
        ensures
            is_metadata_record(buffer@) ==> r is Ok && final(self)@ == decode_metadata(
                buffer@,
                old(self)@,
            ),
            !is_metadata_record(buffer@) ==> r == Err::<(), DalError>(DalError::CorruptMetaData)
                && final(self)@ == old(self)@,
    {
        if buffer.len() == 0 {
            return Ok(());
        }
        if buffer.len() < 8 {
            return Err(DalError::CorruptMetaData);
        }
        let free_list_page = read_be_u64(buffer, 0);
        if free_list_page > usize::MAX as u64 {
            return Err(DalError::CorruptMetaData);
        }
        self.free_list_page = free_list_page as usize;
        Ok(())
    }
}

/// Reading the record of a free-list page number, whatever follows it, gives
/// that page number back.
pub proof fn lemma_metadata_round_trip(free_list_page: usize, current: usize, rest: Seq<u8>)
    ensures
        is_metadata_record(be_bytes(free_list_page as u64) + rest),
        decode_metadata(be_bytes(free_list_page as u64) + rest, current) == free_list_page,
{
    let data = be_bytes(free_list_page as u64) + rest;
    assert(data.subrange(0, 8) =~= be_bytes(free_list_page as u64));
    lemma_be_value_of(data, 0, free_list_page as u64);
}

} // verus!
