//! Small helpers shared by the interface components.
use vstd::prelude::*;
use vstd::std_specs::cmp::PartialEqSpec;

verus! {

/// Stores `value` in `field` when it differs; tells whether it did.
pub fn update_if_changed<T: PartialEq>(field: &mut T, value: T) -> (changed: bool)
    ensures
        T::obeys_eq_spec() ==> changed == !(*old(field)).eq_spec(&value),
        changed ==> *final(field) == value,
        !changed ==> *final(field) == *old(field),
{
    if *field != value {
        *field = value;
        true
    } else {
        false
    }
}

/// A second update with the same value changes nothing: after
/// `update_if_changed(field, v)` the field holds a value equal to `v`, for
/// any type whose `==` follows its specification and is reflexive on `v`.
pub proof fn law_update_twice_is_no_op<T: PartialEq>(old_value: T, v: T)
    requires
        T::obeys_eq_spec(),
        v.eq_spec(&v),
    ensures
        ({
            let after = if !old_value.eq_spec(&v) {
                v
            } else {
                old_value
            };
            after.eq_spec(&v)
        }),
{
}

} // verus!
