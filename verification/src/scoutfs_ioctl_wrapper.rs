use vstd::prelude::*;

verus! {

/// A point in the change log, in the layout of the C wrapper's declaration.
#[allow(non_camel_case_types)]
pub struct scoutwrap_walk_inodes_entry {
    pub major: u64,
    pub ino: u64,
    pub minor: u32,
}

/// A WALK_INODES request in the layout of the C wrapper's declaration, with a
/// 32-bit entry limit.
#[allow(non_camel_case_types)]
pub struct scoutwrap_walk_inodes {
    pub first: scoutwrap_walk_inodes_entry,
    pub last: scoutwrap_walk_inodes_entry,
    pub entries_vec: Vec<scoutwrap_walk_inodes_entry>,
    pub nr_entries: u32,
    pub index: u8,
}

} // verus!
