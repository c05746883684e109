use vstd::prelude::*;

verus! {

#[verifier::external_type_specification]
#[verifier::external_body]
pub struct ExSetU32(tinyset::SetU32);

/// The members of a `tinyset::SetU32`.
pub uninterp spec fn set_u32_members(s: tinyset::SetU32) -> Set<u32>;

/// Relies on `tinyset::SetU32::new`: the set starts empty.
#[verifier::external_body]
pub(crate) fn empty_set() -> (r: tinyset::SetU32)
    ensures
        set_u32_members(r) == Set::<u32>::empty(),
{
    tinyset::SetU32::new()
}

/// Relies on `tinyset::SetU32::contains`: membership test.
#[verifier::external_body]
pub(crate) fn set_contains(s: &tinyset::SetU32, e: u32) -> (r: bool)
    ensures
        r == set_u32_members(*s).contains(e),
{
    s.contains(e)
}

/// Relies on `tinyset::SetU32::insert`: adds `e`, reports whether it was absent.
#[verifier::external_body]
pub(crate) fn set_insert(s: &mut tinyset::SetU32, e: u32) -> (r: bool)
    ensures
        set_u32_members(*final(s)) == set_u32_members(*old(s)).insert(e),
        r == !set_u32_members(*old(s)).contains(e),
{
    s.insert(e)
}

/// Relies on `tinyset::SetU32::remove`: takes `e` out, reports whether it was present.
#[verifier::external_body]
pub(crate) fn set_remove(s: &mut tinyset::SetU32, e: u32) -> (r: bool)
    ensures
        set_u32_members(*final(s)) == set_u32_members(*old(s)).remove(e),
        r == set_u32_members(*old(s)).contains(e),
{
    s.remove(e)
}

} // verus!
