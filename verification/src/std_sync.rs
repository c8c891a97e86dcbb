//! Declarations that let the library's types hold `std::sync::Mutex`.
use vstd::prelude::*;

verus! {

/// `std::sync::Mutex`, held opaquely: the library only stores it.
#[verifier::external_type_specification]
#[verifier::external_body]
#[verifier::reject_recursive_types(T)]
pub struct ExMutex<T: ?Sized>(std::sync::Mutex<T>);

} // verus!
