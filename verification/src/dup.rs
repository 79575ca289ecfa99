use vstd::prelude::*;

verus! {

/// A clone whose result is known to equal the original.
///
/// The coalescer hands one fetched value back to several callers, so it must
/// copy values; plain [`Clone`] promises nothing about the copy, which would
/// leave every contract downstream empty. Value types used with the fetch
/// side implement `Dup` instead, and the proof of `dup` is exactly the
/// promise the cache relies on.
pub trait Dup: Sized {
    /// Return a copy of `self` that is equal to it.
    fn dup(&self) -> (r: Self)
        ensures
            r == *self,
    ;
}

impl Dup for bool {
    fn dup(&self) -> (r: bool)
        ensures
            r == *self,
    {
        *self
    }
}

impl Dup for u8 {
    fn dup(&self) -> (r: u8)
        ensures
            r == *self,
    {
        *self
    }
}

impl Dup for u32 {
    fn dup(&self) -> (r: u32)
        ensures
            r == *self,
    {
        *self
    }
}

impl Dup for u64 {
    fn dup(&self) -> (r: u64)
        ensures
            r == *self,
    {
        *self
    }
}

impl Dup for usize {
    fn dup(&self) -> (r: usize)
        ensures
            r == *self,
    {
        *self
    }
}

impl Dup for i64 {
    fn dup(&self) -> (r: i64)
        ensures
            r == *self,
    {
        *self
    }
}

impl<T: Dup> Dup for Option<T> {
    fn dup(&self) -> (r: Option<T>)
        ensures
            r == *self,
    {
        match self {
            Some(v) => Some(v.dup()),
            None => None,
        }
    }
}

impl<A: Dup, B: Dup> Dup for (A, B) {
    fn dup(&self) -> (r: (A, B))
        ensures
            r == *self,
    {
        (self.0.dup(), self.1.dup())
    }
}

} // verus!
