//! Addresses of memory the crate owns.
use vstd::prelude::*;

verus! {

/// Relies on `<[T]>::as_ptr`: the address of the slice's first element,
/// read as an integer. Nothing is assumed of its value.
#[verifier::external_body]
pub(crate) fn address_of<T>(s: &[T]) -> (r: usize) {
    s.as_ptr() as usize
}

} // verus!
