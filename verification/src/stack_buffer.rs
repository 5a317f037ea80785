//! The fixed-capacity ("stack") store: a backing store with a hard capacity
//! ceiling `N` fixed at construction, no heap growth, and all-or-nothing
//! multi-element appends.

use vstd::prelude::*;

use crate::Barfer;
use std::mem::swap;

verus! {

/// A buffer of at most `N` elements of `T` that implements [`Barfer<T>`].
///
/// The store is append-only: it is created empty, every successful append
/// grows the stored prefix, and a failed append leaves the store observably
/// unchanged. Its abstract state is the sequence `self@` of the elements
/// appended so far, which never grows beyond `N`.
pub struct StackBuffer<T, const N: usize> {
    data: Vec<T>,
}

/// Error type for [`StackBuffer`]'s implementation of [`Barfer`].
#[derive(Debug, PartialEq, Eq, Structural)]
pub enum StackBufferError {
    /// The requested append would push the length beyond the capacity `N`.
    NotEnoughCapacity,
}

impl<T, const N: usize> View for StackBuffer<T, N> {
    type V = Seq<T>;

    closed spec fn view(&self) -> Seq<T> {
        self.data@
    }
}

impl<T, const N: usize> StackBuffer<T, N> {
    /// The capacity invariant: the store never holds more than `N` elements.
    #[verifier::type_invariant]
    spec fn capacity_ok(&self) -> bool {
        self.data@.len() <= N
    }

    /// Creates a new, empty [`StackBuffer`].
    pub fn new() -> (r: Self)
        ensures
            r@ == Seq::<T>::empty(),
    {
        StackBuffer { data: Vec::new() }
    }

    /// Returns the current length of the [`StackBuffer`], which never
    /// exceeds the capacity `N`.
    pub fn len(&self) -> (r: usize)
        ensures
            r == self@.len(),
            r <= N,
    {
        proof {
            use_type_invariant(&*self);
        }
        self.data.len()
    }

    /// Returns whether the [`StackBuffer`] is currently empty.
    pub fn is_empty(&self) -> (r: bool)
        ensures
            r <==> self@.len() == 0,
    {
        self.len() == 0
    }

    /// Adds a value to the [`StackBuffer`].
    ///
    /// Succeeds exactly when the store is not yet full; a push to a full
    /// store fails with [`StackBufferError::NotEnoughCapacity`] and leaves
    /// the store unchanged.
    pub fn push(&mut self, value: T) -> (r: Result<(), StackBufferError>)
        ensures
            r is Ok <==> old(self)@.len() < N,
            r is Ok ==> final(self)@ == old(self)@.push(value),
            r is Err ==> r == Err::<(), StackBufferError>(StackBufferError::NotEnoughCapacity)
                && *final(self) == *old(self),
    {
        proof {
            use_type_invariant(&*self);
        }
        if self.data.len() >= N {
            return Err(StackBufferError::NotEnoughCapacity);
        }
        let mut data: Vec<T> = Vec::new();
        swap(&mut data, &mut self.data);
        data.push(value);
        self.data = data;
        Ok(())
    }

    /// Adds every value of `values` to the [`StackBuffer`], in order.
    ///
    /// Succeeds exactly when all of them fit; otherwise fails with
    /// [`StackBufferError::NotEnoughCapacity`] and leaves the store
    /// observably unchanged (no partial growth is visible after a failure).
    pub fn extend(&mut self, values: Vec<T>) -> (r: Result<(), StackBufferError>)
        ensures
            r is Ok <==> old(self)@.len() + values@.len() <= N,
            r is Ok ==> final(self)@ == old(self)@ + values@,
            r is Err ==> r == Err::<(), StackBufferError>(StackBufferError::NotEnoughCapacity)
                && *final(self) == *old(self),
    {
        proof {
            use_type_invariant(&*self);
        }
        let mut values = values;
        if values.len() > N - self.data.len() {
            return Err(StackBufferError::NotEnoughCapacity);
        }
        let mut data: Vec<T> = Vec::new();
        swap(&mut data, &mut self.data);
        data.append(&mut values);
        self.data = data;
        Ok(())
    }

    /// Adds every value of a copyable slice to the [`StackBuffer`], in
    /// order.
    ///
    /// The capacity check happens before anything is written: on failure the
    /// store is completely untouched, as with [`StackBuffer::extend`].
    pub fn extend_from_slice(&mut self, values: &[T]) -> (r: Result<
        (),
        StackBufferError,
    >) where T: Copy
        ensures
            r is Ok <==> old(self)@.len() + values@.len() <= N,
            r is Ok ==> final(self)@ == old(self)@ + values@,
            r is Err ==> r == Err::<(), StackBufferError>(StackBufferError::NotEnoughCapacity)
                && *final(self) == *old(self),
    {
        proof {
            use_type_invariant(&*self);
        }
        if values.len() > N - self.data.len() {
            return Err(StackBufferError::NotEnoughCapacity);
        }
        let mut data: Vec<T> = Vec::new();
        swap(&mut data, &mut self.data);
        let mut i: usize = 0;
        while i < values.len()
            invariant
                i <= values@.len(),
                data@ == old(self)@ + values@.subrange(0, i as int),
                old(self)@.len() + values@.len() <= N,
            decreases values@.len() - i,
        {
            data.push(values[i]);
            proof {
                assert(values@.subrange(0, i as int).push(values@[i as int]) =~= values@.subrange(
                    0,
                    i + 1,
                ));
            }
            i += 1;
        }
        proof {
            assert(values@.subrange(0, values@.len() as int) =~= values@);
        }
        self.data = data;
        Ok(())
    }

    /// Returns the stored portion of the [`StackBuffer`]: a read-only view
    /// over exactly the elements appended so far.
    pub fn get(&self) -> (r: &[T])
        ensures
            r@ == self@,
    {
        self.data.as_slice()
    }
}

/// A run of at most `cap` pushes into an empty store of capacity `cap`
/// succeeds throughout: before the push of `values[i]` the store holds the
/// first `i` values, fewer than `cap`, so by [`StackBuffer::push`]'s
/// contract that push succeeds and leaves the first `i + 1` values; after
/// the last push the store holds exactly the pushed values, in order, as
/// [`StackBuffer::get`] returns them.
pub proof fn lemma_push_run<T>(values: Seq<T>, cap: nat, i: int)
    requires
        values.len() <= cap,
        0 <= i < values.len(),
    ensures
        values.subrange(0, i).len() < cap,
        values.subrange(0, i).push(values[i]) == values.subrange(0, i + 1),
        values.subrange(0, values.len() as int) == values,
{
    assert(values.subrange(0, i).push(values[i]) =~= values.subrange(0, i + 1));
    assert(values.subrange(0, values.len() as int) =~= values);
}

impl<T, const N: usize> Default for StackBuffer<T, N> {
    /// A default [`StackBuffer`] is a new, empty one.
    fn default() -> (r: Self)
        ensures
            r@ == Seq::<T>::empty(),
    {
        Self::new()
    }
}

impl<T: Copy, const N: usize> Clone for StackBuffer<T, N> {
    /// Cloning preserves the contents.
    fn clone(&self) -> (r: Self)
        ensures
            r@ == self@,
    {
        proof {
            use_type_invariant(self);
        }
        let mut data: Vec<T> = Vec::new();
        let mut i: usize = 0;
        while i < self.data.len()
            invariant
                i <= self.data@.len(),
                data@ == self.data@.subrange(0, i as int),
            decreases self.data@.len() - i,
        {
            data.push(self.data[i]);
            proof {
                assert(self.data@.subrange(0, i as int).push(self.data@[i as int])
                    =~= self.data@.subrange(0, i + 1));
            }
            i += 1;
        }
        proof {
            assert(self.data@.subrange(0, self.data@.len() as int) =~= self.data@);
        }
        StackBuffer { data }
    }
}

impl<T, const N: usize> Barfer<T> for StackBuffer<T, N> {
    type Error = StackBufferError;

    open spec fn contents(&self) -> Seq<T> {
        self@
    }

    open spec fn fits(&self, m: nat) -> bool {
        self@.len() + m <= N
    }

    proof fn fits_mono(&self, m1: nat, m2: nat) {
    }

    fn single(&mut self, value: T) -> (r: Result<(), Self::Error>)
        ensures
            r is Err ==> r == Err::<(), StackBufferError>(StackBufferError::NotEnoughCapacity),
    {
        self.push(value)
    }

    /// All-or-nothing override of the default element-by-element append:
    /// it succeeds exactly when all the values fit, and a failure leaves
    /// the store observably unchanged.
    fn many(&mut self, values: Vec<T>) -> (r: Result<(), Self::Error>)
        ensures
            r is Ok <==> old(self)@.len() + values@.len() <= N,
            r is Err ==> r == Err::<(), StackBufferError>(StackBufferError::NotEnoughCapacity)
                && *final(self) == *old(self),
    {
        proof {
            use_type_invariant(&*self);
        }
        let ghost vs = values@;
        let r = self.extend(values);
        proof {
            if r is Err {
                assert(self@ == old(self)@ + vs.subrange(0, 0)) by {
                    assert(old(self)@ + vs.subrange(0, 0) =~= old(self)@);
                }
                assert(0 < vs.len());
            }
        }
        r
    }

    fn slice(&mut self, values: &[T]) -> (r: Result<(), Self::Error>) where T: Copy
        ensures
            r is Err ==> r == Err::<(), StackBufferError>(StackBufferError::NotEnoughCapacity),
    {
        self.extend_from_slice(values)
    }
}

} // verus!
