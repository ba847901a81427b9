//! Arrays of foreign handles that wrap native objects.
//!
//! When a foreign caller hands over an array of wrapper objects, each
//! element holds a native value behind the foreign runtime's handle. The
//! marshalling layer turns such an array into a native sequence of the
//! wrapped values, preserving order and length; each resulting element is
//! exactly the value its handle wrapped.

use vstd::prelude::*;

verus! {

/// One foreign handle: a wrapper object owning a native value.
pub struct ForeignHandle<T> {
    pub native: T,
}

impl<T> ForeignHandle<T> {
    pub fn wrap(native: T) -> (r: ForeignHandle<T>)
        ensures
            r.native == native,
    {
        ForeignHandle { native }
    }
}

/// An array of foreign handles received as one argument, destined to become
/// a native slice of the wrapped values.
pub struct JForeignObjectsArrayForSlice<T> {
    pub handles: Vec<ForeignHandle<T>>,
}

/// The sequence of native values the array's handles wrap, in array order.
pub open spec fn wrapped_values<T>(arr: JForeignObjectsArrayForSlice<T>) -> Seq<T> {
    arr.handles@.map_values(|h: ForeignHandle<T>| h.native)
}

impl<T> JForeignObjectsArrayForSlice<T> {
    pub fn new() -> (r: JForeignObjectsArrayForSlice<T>)
        ensures
            wrapped_values(r) =~= Seq::<T>::empty(),
    {
        JForeignObjectsArrayForSlice { handles: Vec::new() }
    }

    pub fn push(&mut self, h: ForeignHandle<T>)
        ensures
            wrapped_values(*final(self)) =~= wrapped_values(*old(self)).push(h.native),
    {
        self.handles.push(h);
    }

    pub fn len(&self) -> (r: usize)
        ensures
            r == wrapped_values(*self).len(),
    {
        self.handles.len()
    }

    /// Unwrap every handle into a native vector: the same length, the same
    /// order, each element the value the corresponding handle wrapped.
    pub fn into_native_values(self) -> (r: Vec<T>)
        ensures
            r@ =~= wrapped_values(self),
    {
        let mut r: Vec<T> = Vec::new();
        let mut rest: Vec<ForeignHandle<T>> = self.handles;
        let ghost all: Seq<ForeignHandle<T>> = rest@;
        while rest.len() > 0
            invariant
                r@.len() + rest@.len() == all.len(),
                r@ =~= all.take(r@.len() as int).map_values(
                    |h: ForeignHandle<T>| h.native,
                ),
                rest@ =~= all.skip(r@.len() as int),
            decreases rest@.len(),
        {
            let h = rest.remove(0);
            assert(h == all[r@.len() as int]);
            r.push(h.native);
        }
        assert(all.take(all.len() as int) =~= all);
        r
    }
}

impl<T: Copy> JForeignObjectsArrayForSlice<T> {
    /// Read every wrapped value out of a borrowed array. The handles stay
    /// behind; the values are copied in array order.
    pub fn native_values(&self) -> (r: Vec<T>)
        ensures
            r@ =~= wrapped_values(*self),
    {
        let mut r: Vec<T> = Vec::new();
        let mut i: usize = 0;
        while i < self.handles.len()
            invariant
                i <= self.handles@.len(),
                r@.len() == i,
                forall|j: int| 0 <= j < i ==> r@[j] == self.handles@[j].native,
            decreases self.handles@.len() - i,
        {
            r.push(self.handles[i].native);
            i = i + 1;
        }
        r
    }
}

} // verus!
