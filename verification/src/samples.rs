//! Sample subject code, shaped like the libraries the auditor inspects.
//!
//! The test suite audits model programs whose symbols mirror these
//! definitions: a chainable method, a fallible method whose real-world
//! counterpart wraps its calls in an unchecked region (the model programs
//! mark its body so), a trait with a defaulted operation, and two
//! interface data types.

use vstd::prelude::*;

verus! {

/// A recursive list value of the sample interface.
pub struct List(pub Option<(i64, Box<List>)>);

/// A profile record of the sample interface.
pub struct Profile {
    pub age: u8,
    pub name: String,
}

/// A sample trait with a defaulted operation.
pub trait MyTrait {
    fn trait_func() -> u8 {
        42
    }
}

/// The sample subject type.
pub struct T;

impl T {
    /// Returns the receiver, so calls can be chained.
    pub fn chain(&self) -> (r: &T)
        ensures
            r == self,
    {
        self
    }

    /// Chains twice and succeeds; the audited counterpart performs the
    /// chained calls inside an unchecked region.
    pub fn unsafe_inner(&self) -> (r: Result<(), ()>)
        ensures
            r is Ok,
    {
        let _ = self.chain().chain();
        Result::Ok(())
    }
}

impl MyTrait for T {
    fn trait_func() -> u8 {
        43
    }
}

} // verus!
