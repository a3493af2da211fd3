//! Raw descriptor numbers and their exclusive ownership.

use vstd::prelude::*;

verus! {

/// Whether `raw` can name an open descriptor: the operating system hands out
/// no negative descriptor numbers.
pub open spec fn is_descriptor(raw: int) -> bool {
    0 <= raw <= i32::MAX
}

/// A descriptor number together with the duty to close it.
///
/// The value cannot be copied, and [`OwnedDescriptor::adopt`] is the only
/// place where a bare number becomes an owned descriptor, so at any time a
/// descriptor has one owner. Giving the number up again consumes the value.
#[derive(Debug)]
pub struct OwnedDescriptor {
    raw: i32,
}

impl View for OwnedDescriptor {
    type V = int;

    /// The descriptor number.
    closed spec fn view(&self) -> int {
        self.raw as int
    }
}

impl OwnedDescriptor {
    #[verifier::type_invariant]
    spec fn well_formed(self) -> bool {
        is_descriptor(self.raw as int)
    }

    /// Takes ownership of the descriptor `raw`. A negative number names no
    /// descriptor and is refused.
    pub fn adopt(raw: i32) -> (owned: Option<OwnedDescriptor>)
        ensures
            is_descriptor(raw as int) <==> owned is Some,
            owned matches Some(d) ==> d@ == raw,
    {
        if raw >= 0 {
            Some(OwnedDescriptor { raw })
        } else {
            None
        }
    }

    /// The descriptor number, for use while the descriptor stays owned.
    pub fn raw(&self) -> (raw: i32)
        ensures
            raw == self@,
            is_descriptor(raw as int),
    {
        proof {
            use_type_invariant(self);
        }
        self.raw
    }

    /// Gives up ownership. Whoever receives the number is from now on
    /// responsible for closing the descriptor.
    pub fn release(self) -> (raw: i32)
        ensures
            raw == self@,
            is_descriptor(raw as int),
    {
        proof {
            use_type_invariant(&self);
        }
        self.raw
    }
}

} // verus!
