//! The kernel heap.

use vstd::prelude::*;
use linked_list_allocator::Heap;

verus! {

/// Bytes set aside for the heap: 32 MiB.
pub const HEAP_SIZE: usize = 33554432;

#[verifier::external_type_specification]
#[verifier::external_body]
pub struct ExHeap(Heap);

/// Bytes of the heap that are in use.
pub uninterp spec fn heap_used(heap: &Heap) -> usize;

/// Bytes the heap manages.
pub uninterp spec fn heap_size(heap: &Heap) -> usize;

/// `Heap::used`: the size of the used part of the heap.
#[verifier::external_body]
fn used(heap: &Heap) -> (bytes: usize)
    ensures
        bytes == heap_used(heap),
{
    heap.used()
}

/// `Heap::size`: the size of the heap.
#[verifier::external_body]
fn size(heap: &Heap) -> (bytes: usize)
    ensures
        bytes == heap_size(heap),
{
    heap.size()
}

/// How much of the heap is in use, and how large it is.
pub fn get_heap_usage(heap: &Heap) -> (r: (usize, usize))
    ensures
        r == (heap_used(heap), heap_size(heap)),
{
    (used(heap), size(heap))
}

} // verus!
