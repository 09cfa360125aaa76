//! The read/write-register checker: a named checker namespace of the
//! external runtime.
use vstd::prelude::*;

use crate::checker::Checker;
use crate::CljNs;

verus! {

/// The checker for read/write-register histories.
#[derive(Debug, Clone)]
pub struct ElleRwChecker {
    /// The namespace the checker lives in.
    ns: CljNs,
}

impl Default for ElleRwChecker {
    /// The checker in its canonical namespace.
    fn default() -> (c: Self)
        ensures
            c.ns_spec()@ == "elle.rw-register"@,
    {
        ElleRwChecker { ns: CljNs::new("elle.rw-register".to_string()) }
    }
}

impl Checker for ElleRwChecker {
    closed spec fn ns_spec(&self) -> CljNs {
        self.ns
    }

    fn ns(&self) -> (ns: &CljNs) {
        &self.ns
    }
}

} // verus!
