//! Named document parameters (dimensions that features refer to by id).

use vstd::prelude::*;

use crate::ids::ParameterId;

verus! {

/// A named numeric parameter. `value` is the IEEE-754 bit pattern of the
/// parameter's `f64` value (`f64::to_bits`).
#[derive(Debug, Clone)]
pub struct Parameter {
    pub id: ParameterId,
    pub name: String,
    pub value: u64,
}

impl Parameter {
    pub fn new(id: ParameterId, name: &str, value: u64) -> (p: Self)
        ensures
            p.id == id,
            p.name@ == name@,
            p.value == value,
    {
        Parameter { id, name: name.to_owned(), value }
    }
}

} // verus!
