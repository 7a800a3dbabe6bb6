//! Errors of the IP5306 PMIC set-up over I2C.
use vstd::prelude::*;

verus! {

/// A failed PMIC register write, carrying the bus error.
#[derive(Debug)]
pub enum Error<E> {
    Bus(E),
}

impl<E> From<E> for Error<E> {
    fn from(e: E) -> (r: Self) {
        Error::Bus(e)
    }
}

impl<E> vstd::std_specs::convert::FromSpecImpl<E> for Error<E> {
    open spec fn obeys_from_spec() -> bool {
        true
    }

    open spec fn from_spec(v: E) -> Self {
        Error::Bus(v)
    }
}

} // verus!
