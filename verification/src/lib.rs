//! Core of a distributed-systems testing harness in the Jepsen tradition:
//! generators of client operations, nemesis (fault) bookkeeping, and the
//! append-only, ordered history of one test run. Running operations against
//! a cluster and judging the finished history belong to external
//! collaborators; this crate owns the data and the rules they exchange.
pub mod checker;
pub mod codec;
pub mod generator;
pub mod history;
pub mod ids;
pub mod nemesis;
pub mod op;

use vstd::prelude::*;

verus! {

/// A namespace of the external checker runtime. Only the name lives here;
/// resolving it is the embedding's concern.
#[derive(Debug)]
pub struct CljNs {
    ns: String,
}

impl View for CljNs {
    type V = Seq<char>;

    closed spec fn view(&self) -> Seq<char> {
        self.ns@
    }
}

impl CljNs {
    /// The namespace called `ns`.
    pub fn new(ns: String) -> (r: Self)
        ensures
            r@ == ns@,
    {
        CljNs { ns }
    }

    /// This namespace's name.
    pub fn name(&self) -> (s: &String)
        ensures
            s@ == self@,
    {
        &self.ns
    }
}

impl Clone for CljNs {
    /// A clone names the same namespace.
    fn clone(&self) -> (r: Self)
        ensures
            r@ == self@,
    {
        CljNs { ns: self.ns.clone() }
    }
}

/// The core namespace of the external checker runtime.
#[derive(Debug)]
pub struct CljCore {
    ns: String,
}

impl View for CljCore {
    type V = Seq<char>;

    closed spec fn view(&self) -> Seq<char> {
        self.ns@
    }
}

impl CljCore {
    /// This namespace's name.
    pub fn name(&self) -> (s: &String)
        ensures
            s@ == self@,
    {
        &self.ns
    }
}

impl Default for CljCore {
    /// The canonical core namespace.
    fn default() -> (r: Self)
        ensures
            r@ == "clojure.core"@,
    {
        CljCore { ns: "clojure.core".to_string() }
    }
}

impl Clone for CljCore {
    /// A clone names the same namespace.
    fn clone(&self) -> (r: Self)
        ensures
            r@ == self@,
    {
        CljCore { ns: self.ns.clone() }
    }
}

} // verus!
