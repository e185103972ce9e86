//! The small inline vectors (`smallvec::SmallVec`) that content files keep their
//! equality field ids and split offsets in.
use vstd::prelude::*;
use smallvec::SmallVec;

verus! {

/// A list of field ids, kept in a `SmallVec` with room for four inline.
#[verifier::external_body]
#[derive(Debug)]
pub struct FieldIds {
    inner: SmallVec<[i32; 4]>,
}

/// A list of offsets, kept in a `SmallVec` with room for eight inline.
#[verifier::external_body]
#[derive(Debug)]
pub struct Offsets {
    inner: SmallVec<[i64; 8]>,
}

/// The items of a list of field ids.
pub uninterp spec fn id_items(v: FieldIds) -> Seq<i32>;

/// The items of a list of offsets.
pub uninterp spec fn offset_items(v: Offsets) -> Seq<i64>;

/// Calls `SmallVec::from_vec`, which takes over the items of `v` in order.
#[verifier::external_body]
pub(crate) fn ids_from_vec(v: Vec<i32>) -> (r: FieldIds)
    ensures
        id_items(r) == v@,
{
    FieldIds { inner: SmallVec::from_vec(v) }
}

/// Calls `SmallVec::as_slice`, the items in order.
#[verifier::external_body]
pub(crate) fn ids_as_slice(v: &FieldIds) -> (r: &[i32])
    ensures
        r@ == id_items(*v),
{
    v.inner.as_slice()
}

/// Calls `SmallVec::clone`, which copies the items in order.
#[verifier::external_body]
pub(crate) fn ids_clone(v: &FieldIds) -> (r: FieldIds)
    ensures
        id_items(r) == id_items(*v),
{
    FieldIds { inner: v.inner.clone() }
}

/// Calls `SmallVec::from_vec`, which takes over the items of `v` in order.
#[verifier::external_body]
pub(crate) fn offsets_from_vec(v: Vec<i64>) -> (r: Offsets)
    ensures
        offset_items(r) == v@,
{
    Offsets { inner: SmallVec::from_vec(v) }
}

/// Calls `SmallVec::as_slice`, the items in order.
#[verifier::external_body]
pub(crate) fn offsets_as_slice(v: &Offsets) -> (r: &[i64])
    ensures
        r@ == offset_items(*v),
{
    v.inner.as_slice()
}

/// Calls `SmallVec::clone`, which copies the items in order.
#[verifier::external_body]
pub(crate) fn offsets_clone(v: &Offsets) -> (r: Offsets)
    ensures
        offset_items(r) == offset_items(*v),
{
    Offsets { inner: v.inner.clone() }
}

} // verus!
