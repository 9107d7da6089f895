//! Entries of the auxiliary vector passed to a new program.
use vstd::prelude::*;

verus! {

pub const AT_NULL: usize = 0;

pub const AT_PHDR: usize = 3;

pub const AT_PHENT: usize = 4;

pub const AT_PHNUM: usize = 5;

pub const AT_PAGESZ: usize = 6;

pub const AT_RANDOM: usize = 25;

/// One auxiliary-vector entry: a type tag and its value.
#[derive(Clone, Copy)]
pub struct AuxvT {
    pub a_type: usize,
    pub a_val: usize,
}

impl AuxvT {
    pub fn new(a_type: usize, a_val: usize) -> (r: Self)
        ensures
            r.a_type == a_type,
            r.a_val == a_val,
    {
        AuxvT { a_type, a_val }
    }
}

} // verus!
