//! An append-only buffer abstraction with pluggable backing storage.
//!
//! The [`Barfer`] trait is the common append contract: a single element
//! ([`Barfer::single`]), an owned sequence of elements ([`Barfer::many`]),
//! and a copyable contiguous run of elements ([`Barfer::slice`]).
//! It is implemented by the growable heap store ([`Vec`]), the text store
//! ([`String`], over `char`), and the fixed-capacity store
//! ([`StackBuffer`]).

use vstd::prelude::*;

pub mod codec;
mod barf_ext;
mod barfer_ext;
mod stack_buffer;

pub use barf_ext::Sealed;
pub use barf_ext::StringBarfExt;
pub use barf_ext::Utf8Error;
pub use barf_ext::lemma_text_round_trip;
pub use barfer_ext::ByteBarferExt;
pub use barfer_ext::CharBarferExt;
pub use barfer_ext::uvint64_seq;
pub use stack_buffer::StackBuffer;
pub use stack_buffer::StackBufferError;

verus! {

/// Error type for stores whose appends cannot fail.
///
/// No operation ever produces it: for such stores [`Barfer::fits`] is always
/// true, so the append contract promises `Ok` on every call.
#[derive(Debug, PartialEq, Eq, Structural)]
pub struct NeverFails {
}

/// The append capability: the common contract of every backing store.
///
/// The abstract state of a store is the sequence [`Barfer::contents`] of the
/// elements appended so far; [`Barfer::fits`] says whether a given number of
/// further elements still fits. A successful append extends the contents in
/// order; a failed [`Barfer::single`] or [`Barfer::slice`] leaves the
/// contents unchanged.
pub trait Barfer<T>: Sized {
    /// Error type of the three append operations.
    type Error;

    /// The elements appended so far, in order.
    spec fn contents(&self) -> Seq<T>;

    /// Whether `m` further elements still fit into this store.
    spec fn fits(&self, m: nat) -> bool;

    /// Room for a longer run is room for a shorter one: every store's
    /// `fits` is monotone.
    proof fn fits_mono(&self, m1: nat, m2: nat)
        requires
            m1 <= m2,
            self.fits(m2),
        ensures
            self.fits(m1),
    ;

    /// Append a single element; succeeds exactly when one more element
    /// fits, and a failure leaves the store untouched.
    fn single(&mut self, value: T) -> (r: Result<(), Self::Error>)
        ensures
            r is Ok <==> old(self).fits(1),
            r is Ok ==> final(self).contents() == old(self).contents().push(value),
            r is Err ==> *final(self) == *old(self),
    ;

    /// Append every element of `values`, in order.
    ///
    /// An empty run always succeeds. The default implementation appends one
    /// element at a time and stops at the first failure, leaving the
    /// elements appended so far in place; a store may override it with a
    /// stronger, all-or-nothing behaviour. Either way, a failure means the
    /// store stopped short: it kept a strict prefix of the run and has no
    /// room for the rest.
    #[verifier::loop_isolation(false)]
    fn many(&mut self, values: Vec<T>) -> (r: Result<(), Self::Error>)
        ensures
            r is Ok ==> final(self).contents() == old(self).contents() + values@,
            values@.len() == 0 ==> r is Ok,
            r is Err ==> exists|k: int|
                #![trigger values@.subrange(0, k)]
                0 <= k < values@.len() && final(self).contents() == old(self).contents()
                    + values@.subrange(0, k) && !final(self).fits((values@.len() - k) as nat),
    {
        let ghost all = values@;
        let mut rest = values;
        proof {
            assert(old(self).contents() + all.subrange(0, 0) =~= old(self).contents());
        }
        while rest.len() > 0
            invariant
                rest@.len() <= all.len(),
                rest@ == all.subrange(all.len() - rest@.len(), all.len() as int),
                self.contents() == old(self).contents() + all.subrange(
                    0,
                    all.len() - rest@.len(),
                ),
            decreases rest@.len(),
        {
            let ghost i: int = all.len() - rest@.len();
            let value = rest.remove(0);
            proof {
                assert(rest@ =~= all.subrange(i + 1, all.len() as int));
                assert(value == all[i]);
            }
            match self.single(value) {
                Ok(()) => {
                    proof {
                        assert(all.subrange(0, i).push(all[i]) =~= all.subrange(0, i + 1));
                    }
                },
                Err(e) => {
                    proof {
                        assert(self.contents() == old(self).contents() + all.subrange(0, i));
                        if self.fits((all.len() - i) as nat) {
                            self.fits_mono(1, (all.len() - i) as nat);
                        }
                        assert(!self.fits((all.len() - i) as nat));
                    }
                    return Err(e);
                },
            }
        }
        proof {
            assert(all.subrange(0, all.len() as int) =~= all);
        }
        Ok(())
    }

    /// Append every element of a copyable contiguous run, in order, or fail
    /// without changing the store; succeeds exactly when the run fits.
    fn slice(&mut self, values: &[T]) -> (r: Result<(), Self::Error>) where T: Copy
        ensures
            r is Ok <==> old(self).fits(values@.len() as nat),
            r is Ok ==> final(self).contents() == old(self).contents() + values@,
            r is Err ==> final(self).contents() == old(self).contents(),
    ;
}

/// The growable heap store: appends never fail.
impl<T> Barfer<T> for Vec<T> {
    type Error = NeverFails;

    open spec fn contents(&self) -> Seq<T> {
        self@
    }

    open spec fn fits(&self, m: nat) -> bool {
        true
    }

    proof fn fits_mono(&self, m1: nat, m2: nat) {
    }

    fn single(&mut self, value: T) -> (r: Result<(), Self::Error>) {
        self.push(value);
        Ok(())
    }

    fn many(&mut self, values: Vec<T>) -> (r: Result<(), Self::Error>)
        ensures
            r is Ok,
    {
        let mut values = values;
        self.append(&mut values);
        Ok(())
    }

    fn slice(&mut self, values: &[T]) -> (r: Result<(), Self::Error>) where T: Copy {
        let mut i: usize = 0;
        while i < values.len()
            invariant
                i <= values@.len(),
                self@ == old(self)@ + values@.subrange(0, i as int),
            decreases values@.len() - i,
        {
            self.push(values[i]);
            proof {
                assert(values@.subrange(0, i as int).push(values@[i as int]) =~= values@.subrange(
                    0,
                    i + 1,
                ));
            }
            i += 1;
        }
        proof {
            assert(values@.subrange(0, values@.len() as int) =~= values@);
        }
        Ok(())
    }
}

/// Relies on `String::push`: appends the one character.
#[verifier::external_body]
fn push_char(s: &mut String, c: char)
    ensures
        final(s)@ == old(s)@.push(c),
{
    s.push(c);
}

/// The text store: a growable character sequence whose appends never fail.
impl Barfer<char> for String {
    type Error = NeverFails;

    open spec fn contents(&self) -> Seq<char> {
        self@
    }

    open spec fn fits(&self, m: nat) -> bool {
        true
    }

    proof fn fits_mono(&self, m1: nat, m2: nat) {
    }

    fn single(&mut self, value: char) -> (r: Result<(), Self::Error>) {
        push_char(self, value);
        Ok(())
    }

    fn many(&mut self, values: Vec<char>) -> (r: Result<(), Self::Error>)
        ensures
            r is Ok,
    {
        let mut i: usize = 0;
        while i < values.len()
            invariant
                i <= values@.len(),
                self@ == old(self)@ + values@.subrange(0, i as int),
            decreases values@.len() - i,
        {
            push_char(self, values[i]);
            proof {
                assert(values@.subrange(0, i as int).push(values@[i as int]) =~= values@.subrange(
                    0,
                    i + 1,
                ));
            }
            i += 1;
        }
        proof {
            assert(values@.subrange(0, values@.len() as int) =~= values@);
        }
        Ok(())
    }

    fn slice(&mut self, values: &[char]) -> (r: Result<(), Self::Error>) {
        let mut i: usize = 0;
        while i < values.len()
            invariant
                i <= values@.len(),
                self@ == old(self)@ + values@.subrange(0, i as int),
            decreases values@.len() - i,
        {
            push_char(self, values[i]);
            proof {
                assert(values@.subrange(0, i as int).push(values@[i as int]) =~= values@.subrange(
                    0,
                    i + 1,
                ));
            }
            i += 1;
        }
        proof {
            assert(values@.subrange(0, values@.len() as int) =~= values@);
        }
        Ok(())
    }
}

} // verus!
