//! The allocator of page numbers: growth past the highest page handed out,
//! and reuse of released pages, most recently released first.
use vstd::prelude::*;
use crate::codec::{be_bytes, be_value_at, push_be_u64, read_be_u64, lemma_be_value_of};
use crate::error::DalError;

verus! {

/// What a free list holds: the highest page number handed out by growth, and
/// the released page numbers in the order they were released.
pub ghost struct FreeListView {
    pub max_page: usize,
    pub released: Seq<usize>,
}

impl FreeListView {
    /// A page can be handed out: one was released, or growth does not pass
    /// the largest page number.
    pub open spec fn can_allocate(self) -> bool {
        self.released.len() > 0 || self.max_page < usize::MAX
    }

    /// The page number that the next allocation hands out.
    pub open spec fn next_page(self) -> usize {
        if self.released.len() > 0 {
            self.released.last()
        } else {
            (self.max_page + 1) as usize
        }
    }

    /// The free list after the next allocation.
    pub open spec fn after_next(self) -> FreeListView {
        if self.released.len() > 0 {
            FreeListView { max_page: self.max_page, released: self.released.drop_last() }
        } else {
            FreeListView { max_page: (self.max_page + 1) as usize, released: self.released }
        }
    }

    /// The free list after `page` is released.
    pub open spec fn after_release(self, page: usize) -> FreeListView {
        FreeListView { max_page: self.max_page, released: self.released.push(page) }
    }

    /// The page numbers that `n` allocations in a row hand out.
    pub open spec fn allocations(self, n: nat) -> Seq<usize>
        decreases n,
    {
        if n == 0 {
            Seq::empty()
        } else {
            seq![self.next_page()] + self.after_next().allocations((n - 1) as nat)
        }
    }

    /// The record this free list is stored as.
    pub open spec fn encoding(self) -> Seq<u8> {
        be_bytes(self.max_page as u64) + be_bytes(self.released.len() as u64) + encode_pages(
            self.released,
        )
    }
}

/// The released page numbers of a record, eight bytes each, in order.
pub open spec fn encode_pages(pages: Seq<usize>) -> Seq<u8>
    decreases pages.len(),
{
    if pages.len() == 0 {
        Seq::empty()
    } else {
        encode_pages(pages.drop_last()) + be_bytes(pages.last() as u64)
    }
}

/// The number of released pages that the record in `data` claims.
pub open spec fn record_count(data: Seq<u8>) -> u64 {
    be_value_at(data, 8)
}

/// `data` starts with a whole free-list record whose every entry is a page
/// number.
pub open spec fn is_free_list_record(data: Seq<u8>) -> bool {
    &&& data.len() >= 16
    &&& 16 + 8 * record_count(data) <= data.len()
    &&& be_value_at(data, 0) <= usize::MAX
    &&& forall|i: int|
        0 <= i < record_count(data) ==> #[trigger] be_value_at(data, 16 + 8 * i) <= usize::MAX
}

/// The free list that the record at the start of `data` describes.
pub open spec fn decode_free_list(data: Seq<u8>) -> FreeListView {
    FreeListView {
        max_page: be_value_at(data, 0) as usize,
        released: Seq::new(
            record_count(data) as nat,
            |i: int| be_value_at(data, 16 + 8 * i) as usize,
        ),
    }
}

/// The allocator's state.
#[derive(Debug)]
pub struct FreeList {
    max_page: usize,
    released_pages: Vec<usize>,
}

impl View for FreeList {
    type V = FreeListView;

    closed spec fn view(&self) -> FreeListView {
        FreeListView { max_page: self.max_page, released: self.released_pages@ }
    }
}

impl FreeList {
    /// A free list whose highest page handed out is `max_page`, with nothing
    /// released.
    pub fn new(max_page: usize) -> (r: FreeList)
        ensures
            r@ == (FreeListView { max_page, released: Seq::empty() }),
    {
        FreeList { max_page, released_pages: Vec::new() }
    }

    /// Whether a page number can be handed out: one was released, or the
    /// next page number after the highest one exists.
    pub fn can_allocate(&self) -> (r: bool)
        ensures
            r == self@.can_allocate(),
    {
        self.released_pages.len() > 0 || self.max_page < usize::MAX
    }

    /// Hands out a page number: the most recently released one if any, else
    /// the one after the highest handed out so far.
    pub fn get_next_page(&mut self) -> (r: usize)
        requires
            old(self)@.can_allocate(),
        ensures
            r == old(self)@.next_page(),
            final(self)@ == old(self)@.after_next(),
    {
        if self.released_pages.len() > 0 {
            let r = self.released_pages.pop().unwrap();
            return r;
        }
        self.max_page = self.max_page + 1;
        self.max_page
    }

    /// Gives `page_num` back for reuse. Nothing is checked: the caller
    /// releases only pages it holds, and each once.
    pub fn release_page(&mut self, page_num: usize)
        ensures
            final(self)@ == old(self)@.after_release(page_num),
    {
        self.released_pages.push(page_num);
    }

    /// Appends this free list's record to `buffer`.
    pub fn serialize(&self, buffer: &mut Vec<u8>)
        ensures
            final(buffer)@ == old(buffer)@ + self@.encoding(),
    {
        let ghost start = buffer@;
        push_be_u64(buffer, self.max_page as u64);
        push_be_u64(buffer, self.released_pages.len() as u64);
        let ghost head = buffer@;
        let mut i: usize = 0;
        while i < self.released_pages.len()
            invariant
                i <= self.released_pages@.len(),
                head == start + be_bytes(self.max_page as u64) + be_bytes(
                    self.released_pages@.len() as u64,
                ),
                buffer@ == head + encode_pages(self.released_pages@.subrange(0, i as int)),
            decreases self.released_pages@.len() - i,
        {
            let page_num = self.released_pages[i];
            push_be_u64(buffer, page_num as u64);
            assert(self.released_pages@.subrange(0, i + 1).drop_last()
                =~= self.released_pages@.subrange(0, i as int));
            i = i + 1;
        }
        assert(self.released_pages@.subrange(0, i as int) =~= self.released_pages@);
        assert(buffer@ =~= start + self@.encoding());
    }

    /// Replaces this free list with the one whose record starts `data`. Fails,
    /// leaving it as it was, where `data` holds no whole record.
    pub fn deserialize(&mut self, data: Vec<u8>) -> (r: Result<(), DalError>)
        ensures
            is_free_list_record(data@) ==> r is Ok && final(self)@ == decode_free_list(data@),
            !is_free_list_record(data@) ==> r == Err::<(), DalError>(DalError::CorruptFreeList)
                && final(self)@ == old(self)@,
    {
        let len = data.len();
        if len < 16 {
            return Err(DalError::CorruptFreeList);
        }
        let max_page = read_be_u64(&data, 0);
        let count = read_be_u64(&data, 8);
        if count > ((len - 16) / 8) as u64 || max_page > usize::MAX as u64 {
            return Err(DalError::CorruptFreeList);
        }
        assert(16 + 8 * count <= len) by (nonlinear_arith)
            requires
                count <= (len - 16) / 8,
                len >= 16,
        ;
        let count = count as usize;
        let mut released: Vec<usize> = Vec::new();
        let mut i: usize = 0;
        while i < count
            invariant
                i <= count,
                count == record_count(data@),
                16 + 8 * count <= len,
                len == data@.len(),
                released@ == Seq::new(i as nat, |j: int| be_value_at(data@, 16 + 8 * j) as usize),
                forall|j: int| 0 <= j < i ==> #[trigger] be_value_at(data@, 16 + 8 * j) <= usize::MAX,
            decreases count - i,
        {
            let page_num = read_be_u64(&data, 16 + 8 * i);
            if page_num > usize::MAX as u64 {
                assert(!is_free_list_record(data@)) by {
                    assert(be_value_at(data@, 16 + 8 * (i as int)) > usize::MAX);
                }
                return Err(DalError::CorruptFreeList);
            }
            released.push(page_num as usize);
            assert(released@ =~= Seq::new(
                (i + 1) as nat,
                |j: int| be_value_at(data@, 16 + 8 * j) as usize,
            ));
            i = i + 1;
        }
        self.max_page = max_page as usize;
        self.released_pages = released;
        assert(self@.released =~= decode_free_list(data@).released);
        Ok(())
    }
}

/// The record of released pages holds eight bytes for each, the bytes of the
/// `i`-th page at `8 * i`.
pub proof fn lemma_encode_pages(pages: Seq<usize>)
    ensures
        encode_pages(pages).len() == 8 * pages.len(),
        forall|i: int, k: int|
            0 <= i < pages.len() && 0 <= k < 8 ==> #[trigger] encode_pages(pages)[8 * i + k]
                == be_bytes(pages[i] as u64)[k],
    decreases pages.len(),
{
    if pages.len() > 0 {
        let front = pages.drop_last();
        lemma_encode_pages(front);
        assert forall|i: int, k: int|
            0 <= i < pages.len() && 0 <= k < 8 implies #[trigger] encode_pages(pages)[8 * i + k]
            == be_bytes(pages[i] as u64)[k] by {
            if i < front.len() {
                assert(front[i] == pages[i]);
                assert(encode_pages(front)[8 * i + k] == be_bytes(front[i] as u64)[k]);
            }
        }
    }
}

/// Decoding a free list's record, whatever follows it, gives that free list
/// back: its highest page and its released pages in the same order.
pub proof fn lemma_free_list_round_trip(v: FreeListView, rest: Seq<u8>)
    requires
        v.released.len() <= usize::MAX,
    ensures
        is_free_list_record(v.encoding() + rest),
        decode_free_list(v.encoding() + rest) == v,
{
    let n = v.released.len();
    let data = v.encoding() + rest;
    let enc = encode_pages(v.released);
    lemma_encode_pages(v.released);
    assert(data.subrange(0, 8) =~= be_bytes(v.max_page as u64));
    lemma_be_value_of(data, 0, v.max_page as u64);
    assert(data.subrange(8, 16) =~= be_bytes(n as u64));
    lemma_be_value_of(data, 8, n as u64);
    assert forall|i: int| 0 <= i < n implies #[trigger] be_value_at(data, 16 + 8 * i)
        == v.released[i] as u64 by {
        assert forall|k: int| 0 <= k < 8 implies #[trigger] data.subrange(16 + 8 * i, 16 + 8 * i
            + 8)[k] == be_bytes(v.released[i] as u64)[k] by {
            assert(data[16 + 8 * i + k] == enc[8 * i + k]);
        }
        assert(data.subrange(16 + 8 * i, 16 + 8 * i + 8) =~= be_bytes(v.released[i] as u64));
        lemma_be_value_of(data, 16 + 8 * i, v.released[i] as u64);
    }
    assert(decode_free_list(data).released =~= v.released);
}

/// Allocations from a free list with nothing released hand out the pages
/// after its highest one, one by one in increasing order.
pub proof fn lemma_growth_is_monotonic(v: FreeListView, n: nat)
    requires
        v.released.len() == 0,
        v.max_page + n <= usize::MAX,
    ensures
        v.allocations(n) == Seq::new(n, |i: int| (v.max_page + 1 + i) as usize),
    decreases n,
{
    if n > 0 {
        let w = v.after_next();
        lemma_growth_is_monotonic(w, (n - 1) as nat);
        assert(v.allocations(n) =~= Seq::new(n, |i: int| (v.max_page + 1 + i) as usize));
    }
}

/// A released page is handed out again before any new page: the next
/// allocation returns it and leaves the free list as it was before the
/// release; two released pages come back most recent first.
pub proof fn lemma_reuse_before_growth(v: FreeListView, p1: usize, p2: usize)
    ensures
        v.after_release(p1).next_page() == p1,
        v.after_release(p1).after_next() == v,
        v.after_release(p1).after_release(p2).allocations(2) == seq![p2, p1],
{
    assert(v.released.push(p1).drop_last() =~= v.released);
    let w = v.after_release(p1).after_release(p2);
    assert(w.released.drop_last() =~= v.released.push(p1));
    assert(w.after_next() == v.after_release(p1));
    assert(w.allocations(2) =~= seq![p2, p1]) by {
        let u = v.after_release(p1);
        assert(u.after_next().allocations(0) == Seq::<usize>::empty());
        assert(u.allocations(1) =~= seq![p1]);
        assert(w.allocations(2) == seq![p2] + u.allocations(1));
    }
}

} // verus!
