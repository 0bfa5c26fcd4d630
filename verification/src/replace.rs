use vstd::prelude::*;

verus! {

/// Overwrites `this` with `other`.
pub fn replace<T>(this: &mut T, other: T)
    ensures
        *final(this) == other,
{
    *this = other;
}

/// A configuration value whose merge strategy is "the later value wins".
pub struct Replace<T>(T);

impl<T> Replace<T> {
    /// The value held.
    pub closed spec fn value(self) -> T {
        self.0
    }

    /// Wraps `value`.
    pub fn new(value: T) -> (r: Self)
        ensures
            r.value() == value,
    {
        Replace(value)
    }

    /// Unwraps the value held.
    pub fn to_inner(self) -> (r: T)
        ensures
            r == self.value(),
    {
        self.0
    }

    /// Merges `other` into `self`: the result is `other`.
    pub fn merge(&mut self, other: Self)
        ensures
            *final(self) == merged(*old(self), other),
    {
        replace(self, other);
    }
}

/// What merging `other` into `this` gives.
pub open spec fn merged<T>(this: Replace<T>, other: Replace<T>) -> Replace<T> {
    other
}

/// Merging keeps the most recent value only: merging `b` and then `c` into
/// `a` is the same as merging `c` into any value.
pub proof fn lemma_merge_last_wins<T>(a: Replace<T>, b: Replace<T>, c: Replace<T>, d: Replace<T>)
    ensures
        merged(merged(a, b), c) == merged(d, c),
        merged(a, b).value() == b.value(),
{
}

} // verus!
