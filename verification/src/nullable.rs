//! Carriers for optional scalars the foreign runtime cannot express.
//!
//! The managed runtime's optional wrapper works over objects, not over its
//! primitive boolean, so an optional boolean crosses the boundary as an
//! optional wrapper object instead. The carrier changes nothing about the
//! value and nothing about presence: absent stays absent, never a sentinel.

use vstd::prelude::*;

verus! {

/// A boolean boxed for the foreign runtime's optional wrapper.
#[derive(Clone, Copy, PartialEq, Eq, Structural, Debug)]
pub struct NullableBoolean(pub bool);

impl NullableBoolean {
    /// The wrapped value, unchanged.
    pub fn boolean(&self) -> (r: bool)
        ensures
            r == self.0,
    {
        self.0
    }
}

/// Box each present boolean; absence is preserved exactly.
pub fn wrap_optional_boolean(o: &Option<bool>) -> (r: Option<NullableBoolean>)
    ensures
        r is Some <==> o is Some,
        r is Some ==> (r->0).0 == o->0,
{
    match o {
        Some(b) => Some(NullableBoolean(*b)),
        None => None,
    }
}

/// Unbox in the other direction; presence and value survive unchanged.
pub fn unwrap_optional_boolean(o: &Option<NullableBoolean>) -> (r: Option<bool>)
    ensures
        r is Some <==> o is Some,
        r is Some ==> r->0 == (o->0).0,
{
    match o {
        Some(n) => Some(n.0),
        None => None,
    }
}

/// Boxing and unboxing an optional boolean is the identity, presence
/// included.
pub proof fn lemma_optional_boolean_round_trip(o: Option<bool>, w: Option<NullableBoolean>, b: Option<bool>)
    requires
        w is Some <==> o is Some,
        w is Some ==> (w->0).0 == o->0,
        b is Some <==> w is Some,
        b is Some ==> b->0 == (w->0).0,
    ensures
        b == o,
{
}

} // verus!
