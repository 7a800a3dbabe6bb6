//! The decoder's payload buffer: a `heapless::Vec` of capacity
//! `MAX_INFO_LEN`, reached only through the trusted items below.
use vstd::prelude::*;

verus! {

#[verifier::external_type_specification]
#[verifier::external_body]
#[verifier::reject_recursive_types(T)]
pub struct ExHeaplessVec<T, const N: usize>(heapless::Vec<T, N>);

/// The bytes a payload buffer holds, in order.
pub uninterp spec fn info_contents(v: heapless::Vec<u8, 127>) -> Seq<u8>;

/// `heapless::Vec::new`: a vector with no elements.
#[verifier::external_body]
pub(crate) fn info_new() -> (v: heapless::Vec<u8, 127>)
    ensures
        info_contents(v) == Seq::<u8>::empty(),
{
    heapless::Vec::new()
}

/// `heapless::Vec::push`: below the capacity of 127 it appends the byte and
/// returns `Ok`; at capacity it leaves the vector as it was and hands the
/// byte back in `Err`.
#[verifier::external_body]
pub(crate) fn info_push(v: &mut heapless::Vec<u8, 127>, b: u8) -> (r: Result<(), u8>)
    ensures
        info_contents(*old(v)).len() < 127 ==> {
            &&& r == Ok::<(), u8>(())
            &&& info_contents(*final(v)) == info_contents(*old(v)).push(b)
        },
        info_contents(*old(v)).len() >= 127 ==> {
            &&& r == Err::<(), u8>(b)
            &&& info_contents(*final(v)) == info_contents(*old(v))
        },
{
    v.push(b)
}

/// `heapless::Vec::extend_from_slice`: when the slice fits in the
/// remaining capacity it appends all of it and returns `Ok`; otherwise it
/// leaves the vector as it was and returns `Err`.
#[verifier::external_body]
pub(crate) fn info_extend(v: &mut heapless::Vec<u8, 127>, s: &[u8]) -> (r: Result<(), ()>)
    ensures
        info_contents(*old(v)).len() + s@.len() <= 127 ==> {
            &&& r == Ok::<(), ()>(())
            &&& info_contents(*final(v)) == info_contents(*old(v)) + s@
        },
        info_contents(*old(v)).len() + s@.len() > 127 ==> {
            &&& r == Err::<(), ()>(())
            &&& info_contents(*final(v)) == info_contents(*old(v))
        },
{
    v.extend_from_slice(s)
}

/// `heapless::Vec::clear`: removes every element.
#[verifier::external_body]
pub(crate) fn info_clear(v: &mut heapless::Vec<u8, 127>)
    ensures
        info_contents(*final(v)) == Seq::<u8>::empty(),
{
    v.clear()
}

/// The length of the vector (`len` of the slice it dereferences to).
#[verifier::external_body]
pub(crate) fn info_len(v: &heapless::Vec<u8, 127>) -> (n: usize)
    ensures
        n == info_contents(*v).len(),
{
    v.len()
}

/// `heapless::Vec::as_slice`: the elements as a slice, in order.
#[verifier::external_body]
pub(crate) fn info_as_slice(v: &heapless::Vec<u8, 127>) -> (s: &[u8])
    ensures
        s@ == info_contents(*v),
{
    v.as_slice()
}

} // verus!
