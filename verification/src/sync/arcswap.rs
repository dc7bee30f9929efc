//! A slot holding a shared pointer that can be swapped.
use std::sync::Arc;
use vstd::prelude::*;

verus! {

/// A slot that holds a shared pointer or nothing.
pub struct ArcSwap<T> {
    pointer: Option<Arc<T>>,
}

impl<T> ArcSwap<T> {
    /// What the slot holds.
    pub closed spec fn spec_value(&self) -> Option<Arc<T>> {
        self.pointer
    }

    /// A slot holding a new shared `data`.
    pub fn new(data: T) -> (r: ArcSwap<T>)
        ensures
            r.spec_value() matches Some(p) && *p == data,
    {
        ArcSwap { pointer: Some(Arc::new(data)) }
    }

    /// A slot holding `pointer`.
    pub fn with_pointer(pointer: Arc<T>) -> (r: ArcSwap<T>)
        ensures
            r.spec_value() == Some(pointer),
    {
        ArcSwap { pointer: Some(pointer) }
    }

    /// Put `data` in the slot and hand back what it held.
    pub fn swap(&mut self, data: Option<Arc<T>>) -> (r: Option<Arc<T>>)
        ensures
            r == old(self).spec_value(),
            final(self).spec_value() == data,
    {
        let mut held = data;
        std::mem::swap(&mut self.pointer, &mut held);
        held
    }

    /// The pointer in the slot, if any.
    pub fn try_borrow(&self) -> (r: Option<&Arc<T>>)
        ensures
            match r {
                Some(p) => self.spec_value() == Some(*p),
                None => self.spec_value() is None,
            },
    {
        match &self.pointer {
            Some(p) => Some(p),
            None => None,
        }
    }

    /// The pointer in the slot, which must hold one.
    pub fn borrow(&self) -> (r: &Arc<T>)
        requires
            self.spec_value() is Some,
        ensures
            self.spec_value() == Some(*r),
    {
        match &self.pointer {
            Some(p) => p,
            None => vstd::pervasive::unreached(),
        }
    }
}

} // verus!
