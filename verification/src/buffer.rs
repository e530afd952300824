//! Byte buffers that a selection and its transfers hold in common.

use std::rc::Rc;
use vstd::prelude::*;

verus! {

/// `Rc::clone`: another handle on the same allocation. The buffer behind it
/// is the one behind `data`; no byte is copied.
#[verifier::external_body]
pub(crate) fn share(data: &Rc<Vec<u8>>) -> (handle: Rc<Vec<u8>>)
    ensures
        handle == *data,
{
    Rc::clone(data)
}

/// Copies the bytes of `data` from `start` up to `end`.
pub(crate) fn copy_range(data: &Vec<u8>, start: usize, end: usize) -> (bytes: Vec<u8>)
    requires
        start <= end <= data@.len(),
    ensures
        bytes@ == data@.subrange(start as int, end as int),
{
    let mut bytes: Vec<u8> = Vec::new();
    let mut i: usize = start;
    while i < end
        invariant
            start <= i <= end <= data@.len(),
            bytes@ == data@.subrange(start as int, i as int),
        decreases end - i,
    {
        bytes.push(data[i]);
        i += 1;
    }
    bytes
}

} // verus!
