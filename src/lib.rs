//! Disk access layer of a page-oriented store: page numbering, the free-page
//! allocator, the root metadata record and their on-disk encodings.
use vstd::prelude::*;

pub mod codec;
pub mod error;
pub mod page;
pub mod free_list;
pub mod metadata;
pub mod dal;
