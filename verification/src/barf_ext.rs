//! Extensions for building a [`String`] directly: appending string slices,
//! and appending raw bytes after UTF-8 validation.

use vstd::prelude::*;

use vstd::string::StringExecFns;
use vstd::string::StringSliceAdditionalSpecFns;
use vstd::utf8::decode_utf8;
use vstd::utf8::encode_utf8;
use vstd::utf8::valid_utf8;

verus! {

/// Failure of UTF-8 validation: the supplied bytes are not the well-formed
/// encoding of any character sequence. Distinct from the append
/// capability's own error type; the target text is left unchanged.
#[derive(Debug, PartialEq, Eq, Structural)]
pub struct Utf8Error {
}

/// Relies on `core::str::from_utf8`: it succeeds exactly on well-formed
/// UTF-8, and the returned string slice is backed by exactly the given
/// bytes.
#[verifier::external_body]
fn bytes_as_str(b: &[u8]) -> (r: Option<&str>)
    ensures
        r is Some <==> valid_utf8(b@),
        r matches Some(s) ==> s.spec_bytes() == b@,
{
    core::str::from_utf8(b).ok()
}

/// Marker supertrait that keeps [`StringBarfExt`] to the text store.
pub trait Sealed {}

impl Sealed for String {}

/// Extensions for appending into a [`String`].
pub trait StringBarfExt: Sealed + Sized {
    /// The characters held so far.
    spec fn text(&self) -> Seq<char>;

    /// Appends the string `s`.
    fn string(&mut self, s: &str)
        ensures
            final(self).text() == old(self).text() + s@,
    ;

    /// Appends raw bytes after validating that they are well-formed UTF-8.
    ///
    /// Succeeds exactly when the bytes decode, and then appends the decoded
    /// characters; on failure the text is unchanged.
    fn bytes(&mut self, b: &[u8]) -> (r: Result<(), Utf8Error>)
        ensures
            r is Ok <==> valid_utf8(b@),
            r is Ok ==> final(self).text() == old(self).text() + decode_utf8(b@),
            r is Err ==> final(self).text() == old(self).text(),
    ;
}

impl StringBarfExt for String {
    open spec fn text(&self) -> Seq<char> {
        self@
    }

    fn string(&mut self, s: &str) {
        self.append(s);
    }

    fn bytes(&mut self, b: &[u8]) -> (r: Result<(), Utf8Error>) {
        match bytes_as_str(b) {
            Some(s) => {
                proof {
                    vstd::utf8::encode_utf8_decode_utf8(s@);
                }
                self.append(s);
                Ok(())
            },
            None => Err(Utf8Error {}),
        }
    }
}

/// Text round trip: a string's UTF-8 byte encoding is well-formed, and
/// decoding those bytes yields exactly the original character sequence.
pub proof fn lemma_text_round_trip(s: Seq<char>)
    ensures
        valid_utf8(encode_utf8(s)),
        decode_utf8(encode_utf8(s)) == s,
{
    vstd::utf8::encode_utf8_valid_utf8(s);
    vstd::utf8::encode_utf8_decode_utf8(s);
}

} // verus!
