//! Pages, and the model of the backing file they are read from and written to.
use vstd::prelude::*;

verus! {

/// One page of the store: its number and its bytes. Its byte offset in the
/// file is its number times the page size.
#[derive(Debug)]
pub struct Page {
    pub num: usize,
    pub data: Vec<u8>,
}

/// The backing file after `data` is written at byte `offset`: the file grows,
/// filled with zeros, where the write ends past its end.
pub open spec fn file_after_write(file: Seq<u8>, offset: nat, data: Seq<u8>) -> Seq<u8> {
    let end = offset + data.len();
    let len = if file.len() > end {
        file.len()
    } else {
        end
    };
    Seq::new(
        len as nat,
        |i: int|
            if offset <= i < end {
                data[i - offset]
            } else if i < file.len() {
                file[i]
            } else {
                0u8
            },
    )
}

/// The bytes that a read of up to `len` bytes at byte `offset` of the backing
/// file gets: fewer where the file ends first.
pub open spec fn file_read(file: Seq<u8>, offset: nat, len: nat) -> Seq<u8> {
    if offset >= file.len() {
        Seq::empty()
    } else if offset + len <= file.len() {
        file.subrange(offset as int, (offset + len) as int)
    } else {
        file.subrange(offset as int, file.len() as int)
    }
}

/// Reading back the bytes just written at an offset gives those bytes.
pub proof fn lemma_read_after_write(file: Seq<u8>, offset: nat, data: Seq<u8>)
    ensures
        file_read(file_after_write(file, offset, data), offset, data.len()) == data,
{
    let f = file_after_write(file, offset, data);
    assert(file_read(f, offset, data.len()) =~= data);
}

} // verus!
