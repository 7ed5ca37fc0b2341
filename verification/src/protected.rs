//! A wrapper that keeps secrets apart from ordinary values.

use vstd::prelude::*;

verus! {

/// A secret value.
///
/// It has no `Debug` and no `Deref`, so that reading the secret always takes an explicit call.
pub struct Protected<T> {
    data: T,
}

impl<T> View for Protected<T> {
    type V = T;

    closed spec fn view(&self) -> T {
        self.data
    }
}

impl<T> Protected<T> {
    /// Wraps a value.
    pub fn new(value: T) -> (result: Self)
        ensures
            result@ == value,
    {
        Protected { data: value }
    }

    /// Borrows the secret.
    pub fn expose(&self) -> (value: &T)
        ensures
            *value == self@,
    {
        &self.data
    }

    /// Takes the secret out of its wrapper.
    pub fn into_inner(self) -> (value: T)
        ensures
            value == self@,
    {
        self.data
    }
}

impl<T: Clone> Clone for Protected<T> {
    fn clone(&self) -> (result: Self)
        ensures
            cloned::<T>(self@, result@),
    {
        Protected { data: self.data.clone() }
    }
}

} // verus!
