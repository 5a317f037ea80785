//! Encoding extensions layered over the append capability: fixed-width
//! numeric formats in three byte orders, two variable-length integer
//! formats, and text, each appended as one contiguous run.

use vstd::prelude::*;

use crate::Barfer;
use crate::codec::as_unsigned;
use crate::codec::be_bytes;
use crate::codec::be_encode;
use crate::codec::le_bytes;
use crate::codec::le_encode;
use crate::codec::sleb128_seq;
use crate::codec::uleb128_seq;
use crate::codec::unsigned_of_i128;
use crate::codec::unsigned_of_i16;
use crate::codec::unsigned_of_i32;
use crate::codec::unsigned_of_i64;
use crate::codec::unsigned_of_i8;
use crate::codec::zigzag;
use vstd::utf8::encode_scalar;
use vstd::utf8::encode_utf8;

verus! {

/// What `vint64::encode` returns for a given value. The format is the
/// external codec's own: self-describing, one to nine bytes, decodable
/// without outside length information.
pub uninterp spec fn uvint64_seq(v: u64) -> Seq<u8>;

/// Relies on `u32::from_ne_bytes`: reading a pattern with a single set byte
/// tells the target's byte order apart.
#[verifier::external_body]
fn native_is_little() -> bool {
    u32::from_ne_bytes([1, 0, 0, 0]) == 1
}

/// Relies on `char::encode_utf8`: the result is the UTF-8 encoding of the
/// character.
#[verifier::external_body]
fn encode_char(c: char) -> (r: Vec<u8>)
    ensures
        r@ == encode_scalar(c as u32),
{
    let mut buf = [0u8; 4];
    let s = c.encode_utf8(&mut buf);
    s.as_bytes().to_vec()
}

/// Relies on `str::chars`: the characters of the string, in order.
#[verifier::external_body]
fn chars_vec(s: &str) -> (r: Vec<char>)
    ensures
        r@ == s@,
{
    let mut r = Vec::new();
    for c in s.chars() {
        r.push(c);
    }
    r
}

/// Relies on `nano_leb128::ULEB128::write_into`: the standard unsigned
/// LEB128 encoding, at most ten bytes for a `u64`, so the write into a
/// ten-byte scratch buffer cannot fail.
#[verifier::external_body]
fn uleb128_bytes(num: u64) -> (r: Vec<u8>)
    ensures
        r@ == uleb128_seq(num as nat),
{
    let mut encoded = [0u8; 10];
    let len = nano_leb128::ULEB128::from(num).write_into(&mut encoded).unwrap();
    encoded[..len].to_vec()
}

/// Relies on `nano_leb128::SLEB128::write_into`: the standard signed LEB128
/// encoding, at most ten bytes for an `i64`, so the write into a ten-byte
/// scratch buffer cannot fail.
#[verifier::external_body]
fn sleb128_bytes(num: i64) -> (r: Vec<u8>)
    ensures
        r@ == sleb128_seq(num as int),
{
    let mut encoded = [0u8; 10];
    let len = nano_leb128::SLEB128::from(num).write_into(&mut encoded).unwrap();
    encoded[..len].to_vec()
}

/// Relies on `vint64::encode`: the self-describing variable-length encoding
/// of a `u64`, one to nine bytes.
#[verifier::external_body]
fn uvint64_bytes(num: u64) -> (r: Vec<u8>)
    ensures
        r@ == uvint64_seq(num),
        1 <= r@.len() <= 9,
{
    vint64::encode(num).as_ref().to_vec()
}

/// Relies on `vint64::signed::encode`: the zigzag fold of the value,
/// encoded by the same unsigned variable-length format.
#[verifier::external_body]
fn svint64_bytes(num: i64) -> (r: Vec<u8>)
    ensures
        r@ == uvint64_seq(zigzag(num)),
        1 <= r@.len() <= 9,
{
    vint64::signed::encode(num).as_ref().to_vec()
}

/// Extensions for [`Barfer<u8>`]: every method converts its value into its
/// byte encoding and appends it as one contiguous run via
/// [`Barfer::slice`], so it succeeds exactly when the whole encoding fits
/// and leaves the store unchanged when it does not.
pub trait ByteBarferExt: Barfer<u8> {
    /// Appends the UTF-8 bytes of `s`.
    fn string(&mut self, s: &str) -> (r: Result<(), Self::Error>)
        ensures
            r is Ok <==> old(self).fits(encode_utf8(s@).len()),
            r is Ok ==> final(self).contents() == old(self).contents() + encode_utf8(s@),
            r is Err ==> final(self).contents() == old(self).contents(),
    {
        self.slice(s.as_bytes())
    }

    /// Appends the UTF-8 bytes of the single character `c`.
    fn char(&mut self, c: char) -> (r: Result<(), Self::Error>)
        ensures
            r is Ok <==> old(self).fits(encode_scalar(c as u32).len()),
            r is Ok ==> final(self).contents() == old(self).contents() + encode_scalar(c as u32),
            r is Err ==> final(self).contents() == old(self).contents(),
    {
        let bytes = encode_char(c);
        self.slice(bytes.as_slice())
    }

    /// Appends `num` in the standard unsigned LEB128 encoding.
    fn uleb128(&mut self, num: u64) -> (r: Result<(), Self::Error>)
        ensures
            r is Ok <==> old(self).fits(uleb128_seq(num as nat).len()),
            r is Ok ==> final(self).contents() == old(self).contents() + uleb128_seq(num as nat),
            r is Err ==> final(self).contents() == old(self).contents(),
    {
        let bytes = uleb128_bytes(num);
        self.slice(bytes.as_slice())
    }

    /// Appends `num` in the standard signed LEB128 encoding.
    fn sleb128(&mut self, num: i64) -> (r: Result<(), Self::Error>)
        ensures
            r is Ok <==> old(self).fits(sleb128_seq(num as int).len()),
            r is Ok ==> final(self).contents() == old(self).contents() + sleb128_seq(num as int),
            r is Err ==> final(self).contents() == old(self).contents(),
    {
        let bytes = sleb128_bytes(num);
        self.slice(bytes.as_slice())
    }

    /// Appends `num` in the external self-describing variable-length
    /// format for unsigned 64-bit values; the encoding takes one to nine
    /// bytes, so a store with nine free slots always has room for it.
    fn uvint64(&mut self, num: u64) -> (r: Result<(), Self::Error>)
        ensures
            1 <= uvint64_seq(num).len() <= 9,
            r is Ok <==> old(self).fits(uvint64_seq(num).len()),
            r is Ok ==> final(self).contents() == old(self).contents() + uvint64_seq(num),
            r is Err ==> final(self).contents() == old(self).contents(),
    {
        let bytes = uvint64_bytes(num);
        self.slice(bytes.as_slice())
    }

    /// Appends `num`, zigzag-folded, in the external self-describing
    /// variable-length format; the encoding takes one to nine bytes, so a
    /// store with nine free slots always has room for it.
    fn svint64(&mut self, num: i64) -> (r: Result<(), Self::Error>)
        ensures
            1 <= uvint64_seq(zigzag(num)).len() <= 9,
            r is Ok <==> old(self).fits(uvint64_seq(zigzag(num)).len()),
            r is Ok ==> final(self).contents() == old(self).contents() + uvint64_seq(zigzag(num)),
            r is Err ==> final(self).contents() == old(self).contents(),
    {
        let bytes = svint64_bytes(num);
        self.slice(bytes.as_slice())
    }

    /// Appends `num` as its 1-byte little-endian encoding.
    fn le_u8(&mut self, num: u8) -> (r: Result<(), Self::Error>)
        ensures
            r is Ok <==> old(self).fits(1),
            r is Ok ==> final(self).contents() == old(self).contents() + le_bytes(num as nat, 1),
            r is Err ==> final(self).contents() == old(self).contents(),
    {
        let bytes = le_encode(num as u128, 1);
        self.slice(bytes.as_slice())
    }

    /// Appends `num` as its 2-byte little-endian encoding.
    fn le_u16(&mut self, num: u16) -> (r: Result<(), Self::Error>)
        ensures
            r is Ok <==> old(self).fits(2),
            r is Ok ==> final(self).contents() == old(self).contents() + le_bytes(num as nat, 2),
            r is Err ==> final(self).contents() == old(self).contents(),
    {
        let bytes = le_encode(num as u128, 2);
        self.slice(bytes.as_slice())
    }

    /// Appends `num` as its 4-byte little-endian encoding.
    fn le_u32(&mut self, num: u32) -> (r: Result<(), Self::Error>)
        ensures
            r is Ok <==> old(self).fits(4),
            r is Ok ==> final(self).contents() == old(self).contents() + le_bytes(num as nat, 4),
            r is Err ==> final(self).contents() == old(self).contents(),
    {
        let bytes = le_encode(num as u128, 4);
        self.slice(bytes.as_slice())
    }

    /// Appends `num` as its 8-byte little-endian encoding.
    fn le_u64(&mut self, num: u64) -> (r: Result<(), Self::Error>)
        ensures
            r is Ok <==> old(self).fits(8),
            r is Ok ==> final(self).contents() == old(self).contents() + le_bytes(num as nat, 8),
            r is Err ==> final(self).contents() == old(self).contents(),
    {
        let bytes = le_encode(num as u128, 8);
        self.slice(bytes.as_slice())
    }

    /// Appends `num` as its 16-byte little-endian encoding.
    fn le_u128(&mut self, num: u128) -> (r: Result<(), Self::Error>)
        ensures
            r is Ok <==> old(self).fits(16),
            r is Ok ==> final(self).contents() == old(self).contents() + le_bytes(num as nat, 16),
            r is Err ==> final(self).contents() == old(self).contents(),
    {
        let bytes = le_encode(num as u128, 16);
        self.slice(bytes.as_slice())
    }

    /// Appends `num` as its 1-byte little-endian two's-complement
    /// encoding.
    fn le_i8(&mut self, num: i8) -> (r: Result<(), Self::Error>)
        ensures
            r is Ok <==> old(self).fits(1),
            r is Ok ==> final(self).contents() == old(self).contents() + le_bytes(
                as_unsigned(num as int, 1),
                1,
            ),
            r is Err ==> final(self).contents() == old(self).contents(),
    {
        let bytes = le_encode(unsigned_of_i8(num) as u128, 1);
        self.slice(bytes.as_slice())
    }

    /// Appends `num` as its 2-byte little-endian two's-complement
    /// encoding.
    fn le_i16(&mut self, num: i16) -> (r: Result<(), Self::Error>)
        ensures
            r is Ok <==> old(self).fits(2),
            r is Ok ==> final(self).contents() == old(self).contents() + le_bytes(
                as_unsigned(num as int, 2),
                2,
            ),
            r is Err ==> final(self).contents() == old(self).contents(),
    {
        let bytes = le_encode(unsigned_of_i16(num) as u128, 2);
        self.slice(bytes.as_slice())
    }

    /// Appends `num` as its 4-byte little-endian two's-complement
    /// encoding.
    fn le_i32(&mut self, num: i32) -> (r: Result<(), Self::Error>)
        ensures
            r is Ok <==> old(self).fits(4),
            r is Ok ==> final(self).contents() == old(self).contents() + le_bytes(
                as_unsigned(num as int, 4),
                4,
            ),
            r is Err ==> final(self).contents() == old(self).contents(),
    {
        let bytes = le_encode(unsigned_of_i32(num) as u128, 4);
        self.slice(bytes.as_slice())
    }

    /// Appends `num` as its 8-byte little-endian two's-complement
    /// encoding.
    fn le_i64(&mut self, num: i64) -> (r: Result<(), Self::Error>)
        ensures
            r is Ok <==> old(self).fits(8),
            r is Ok ==> final(self).contents() == old(self).contents() + le_bytes(
                as_unsigned(num as int, 8),
                8,
            ),
            r is Err ==> final(self).contents() == old(self).contents(),
    {
        let bytes = le_encode(unsigned_of_i64(num) as u128, 8);
        self.slice(bytes.as_slice())
    }

    /// Appends `num` as its 16-byte little-endian two's-complement
    /// encoding.
    fn le_i128(&mut self, num: i128) -> (r: Result<(), Self::Error>)
        ensures
            r is Ok <==> old(self).fits(16),
            r is Ok ==> final(self).contents() == old(self).contents() + le_bytes(
                as_unsigned(num as int, 16),
                16,
            ),
            r is Err ==> final(self).contents() == old(self).contents(),
    {
        let bytes = le_encode(unsigned_of_i128(num) as u128, 16);
        self.slice(bytes.as_slice())
    }

    /// Appends `num` as its 1-byte big-endian encoding.
    fn be_u8(&mut self, num: u8) -> (r: Result<(), Self::Error>)
        ensures
            r is Ok <==> old(self).fits(1),
            r is Ok ==> final(self).contents() == old(self).contents() + be_bytes(num as nat, 1),
            r is Err ==> final(self).contents() == old(self).contents(),
    {
        let bytes = be_encode(num as u128, 1);
        self.slice(bytes.as_slice())
    }

    /// Appends `num` as its 2-byte big-endian encoding.
    fn be_u16(&mut self, num: u16) -> (r: Result<(), Self::Error>)
        ensures
            r is Ok <==> old(self).fits(2),
            r is Ok ==> final(self).contents() == old(self).contents() + be_bytes(num as nat, 2),
            r is Err ==> final(self).contents() == old(self).contents(),
    {
        let bytes = be_encode(num as u128, 2);
        self.slice(bytes.as_slice())
    }

    /// Appends `num` as its 4-byte big-endian encoding.
    fn be_u32(&mut self, num: u32) -> (r: Result<(), Self::Error>)
        ensures
            r is Ok <==> old(self).fits(4),
            r is Ok ==> final(self).contents() == old(self).contents() + be_bytes(num as nat, 4),
            r is Err ==> final(self).contents() == old(self).contents(),
    {
        let bytes = be_encode(num as u128, 4);
        self.slice(bytes.as_slice())
    }

    /// Appends `num` as its 8-byte big-endian encoding.
    fn be_u64(&mut self, num: u64) -> (r: Result<(), Self::Error>)
        ensures
            r is Ok <==> old(self).fits(8),
            r is Ok ==> final(self).contents() == old(self).contents() + be_bytes(num as nat, 8),
            r is Err ==> final(self).contents() == old(self).contents(),
    {
        let bytes = be_encode(num as u128, 8);
        self.slice(bytes.as_slice())
    }

    /// Appends `num` as its 16-byte big-endian encoding.
    fn be_u128(&mut self, num: u128) -> (r: Result<(), Self::Error>)
        ensures
            r is Ok <==> old(self).fits(16),
            r is Ok ==> final(self).contents() == old(self).contents() + be_bytes(num as nat, 16),
            r is Err ==> final(self).contents() == old(self).contents(),
    {
        let bytes = be_encode(num as u128, 16);
        self.slice(bytes.as_slice())
    }

    /// Appends `num` as its 1-byte big-endian two's-complement encoding.
    fn be_i8(&mut self, num: i8) -> (r: Result<(), Self::Error>)
        ensures
            r is Ok <==> old(self).fits(1),
            r is Ok ==> final(self).contents() == old(self).contents() + be_bytes(
                as_unsigned(num as int, 1),
                1,
            ),
            r is Err ==> final(self).contents() == old(self).contents(),
    {
        let bytes = be_encode(unsigned_of_i8(num) as u128, 1);
        self.slice(bytes.as_slice())
    }

    /// Appends `num` as its 2-byte big-endian two's-complement encoding.
    fn be_i16(&mut self, num: i16) -> (r: Result<(), Self::Error>)
        ensures
            r is Ok <==> old(self).fits(2),
            r is Ok ==> final(self).contents() == old(self).contents() + be_bytes(
                as_unsigned(num as int, 2),
                2,
            ),
            r is Err ==> final(self).contents() == old(self).contents(),
    {
        let bytes = be_encode(unsigned_of_i16(num) as u128, 2);
        self.slice(bytes.as_slice())
    }

    /// Appends `num` as its 4-byte big-endian two's-complement encoding.
    fn be_i32(&mut self, num: i32) -> (r: Result<(), Self::Error>)
        ensures
            r is Ok <==> old(self).fits(4),
            r is Ok ==> final(self).contents() == old(self).contents() + be_bytes(
                as_unsigned(num as int, 4),
                4,
            ),
            r is Err ==> final(self).contents() == old(self).contents(),
    {
        let bytes = be_encode(unsigned_of_i32(num) as u128, 4);
        self.slice(bytes.as_slice())
    }

    /// Appends `num` as its 8-byte big-endian two's-complement encoding.
    fn be_i64(&mut self, num: i64) -> (r: Result<(), Self::Error>)
        ensures
            r is Ok <==> old(self).fits(8),
            r is Ok ==> final(self).contents() == old(self).contents() + be_bytes(
                as_unsigned(num as int, 8),
                8,
            ),
            r is Err ==> final(self).contents() == old(self).contents(),
    {
        let bytes = be_encode(unsigned_of_i64(num) as u128, 8);
        self.slice(bytes.as_slice())
    }

    /// Appends `num` as its 16-byte big-endian two's-complement encoding.
    fn be_i128(&mut self, num: i128) -> (r: Result<(), Self::Error>)
        ensures
            r is Ok <==> old(self).fits(16),
            r is Ok ==> final(self).contents() == old(self).contents() + be_bytes(
                as_unsigned(num as int, 16),
                16,
            ),
            r is Err ==> final(self).contents() == old(self).contents(),
    {
        let bytes = be_encode(unsigned_of_i128(num) as u128, 16);
        self.slice(bytes.as_slice())
    }

    /// Appends `num` as 1 bytes in the target's native byte order: the
    /// little-endian or the big-endian encoding, whichever the platform
    /// uses.
    fn ne_u8(&mut self, num: u8) -> (r: Result<(), Self::Error>)
        ensures
            r is Ok <==> old(self).fits(1),
            r is Ok ==> final(self).contents() == old(self).contents() + le_bytes(num as nat, 1)
                || final(self).contents() == old(self).contents() + be_bytes(num as nat, 1),
            r is Err ==> final(self).contents() == old(self).contents(),
    {
        if native_is_little() {
            self.le_u8(num)
        } else {
            self.be_u8(num)
        }
    }

    /// Appends `num` as 2 bytes in the target's native byte order: the
    /// little-endian or the big-endian encoding, whichever the platform
    /// uses.
    fn ne_u16(&mut self, num: u16) -> (r: Result<(), Self::Error>)
        ensures
            r is Ok <==> old(self).fits(2),
            r is Ok ==> final(self).contents() == old(self).contents() + le_bytes(num as nat, 2)
                || final(self).contents() == old(self).contents() + be_bytes(num as nat, 2),
            r is Err ==> final(self).contents() == old(self).contents(),
    {
        if native_is_little() {
            self.le_u16(num)
        } else {
            self.be_u16(num)
        }
    }

    /// Appends `num` as 4 bytes in the target's native byte order: the
    /// little-endian or the big-endian encoding, whichever the platform
    /// uses.
    fn ne_u32(&mut self, num: u32) -> (r: Result<(), Self::Error>)
        ensures
            r is Ok <==> old(self).fits(4),
            r is Ok ==> final(self).contents() == old(self).contents() + le_bytes(num as nat, 4)
                || final(self).contents() == old(self).contents() + be_bytes(num as nat, 4),
            r is Err ==> final(self).contents() == old(self).contents(),
    {
        if native_is_little() {
            self.le_u32(num)
        } else {
            self.be_u32(num)
        }
    }

    /// Appends `num` as 8 bytes in the target's native byte order: the
    /// little-endian or the big-endian encoding, whichever the platform
    /// uses.
    fn ne_u64(&mut self, num: u64) -> (r: Result<(), Self::Error>)
        ensures
            r is Ok <==> old(self).fits(8),
            r is Ok ==> final(self).contents() == old(self).contents() + le_bytes(num as nat, 8)
                || final(self).contents() == old(self).contents() + be_bytes(num as nat, 8),
            r is Err ==> final(self).contents() == old(self).contents(),
    {
        if native_is_little() {
            self.le_u64(num)
        } else {
            self.be_u64(num)
        }
    }

    /// Appends `num` as 16 bytes in the target's native byte order: the
    /// little-endian or the big-endian encoding, whichever the platform
    /// uses.
    fn ne_u128(&mut self, num: u128) -> (r: Result<(), Self::Error>)
        ensures
            r is Ok <==> old(self).fits(16),
            r is Ok ==> final(self).contents() == old(self).contents() + le_bytes(num as nat, 16)
                || final(self).contents() == old(self).contents() + be_bytes(num as nat, 16),
            r is Err ==> final(self).contents() == old(self).contents(),
    {
        if native_is_little() {
            self.le_u128(num)
        } else {
            self.be_u128(num)
        }
    }

    /// Appends `num` as 1 two's-complement bytes in the target's native
    /// byte order: the little-endian or the big-endian encoding, whichever
    /// the platform uses.
    fn ne_i8(&mut self, num: i8) -> (r: Result<(), Self::Error>)
        ensures
            r is Ok <==> old(self).fits(1),
            r is Ok ==> final(self).contents() == old(self).contents() + le_bytes(
                as_unsigned(num as int, 1),
                1,
            ) || final(self).contents() == old(self).contents() + be_bytes(
                as_unsigned(num as int, 1),
                1,
            ),
            r is Err ==> final(self).contents() == old(self).contents(),
    {
        if native_is_little() {
            self.le_i8(num)
        } else {
            self.be_i8(num)
        }
    }

    /// Appends `num` as 2 two's-complement bytes in the target's native
    /// byte order: the little-endian or the big-endian encoding, whichever
    /// the platform uses.
    fn ne_i16(&mut self, num: i16) -> (r: Result<(), Self::Error>)
        ensures
            r is Ok <==> old(self).fits(2),
            r is Ok ==> final(self).contents() == old(self).contents() + le_bytes(
                as_unsigned(num as int, 2),
                2,
            ) || final(self).contents() == old(self).contents() + be_bytes(
                as_unsigned(num as int, 2),
                2,
            ),
            r is Err ==> final(self).contents() == old(self).contents(),
    {
        if native_is_little() {
            self.le_i16(num)
        } else {
            self.be_i16(num)
        }
    }

    /// Appends `num` as 4 two's-complement bytes in the target's native
    /// byte order: the little-endian or the big-endian encoding, whichever
    /// the platform uses.
    fn ne_i32(&mut self, num: i32) -> (r: Result<(), Self::Error>)
        ensures
            r is Ok <==> old(self).fits(4),
            r is Ok ==> final(self).contents() == old(self).contents() + le_bytes(
                as_unsigned(num as int, 4),
                4,
            ) || final(self).contents() == old(self).contents() + be_bytes(
                as_unsigned(num as int, 4),
                4,
            ),
            r is Err ==> final(self).contents() == old(self).contents(),
    {
        if native_is_little() {
            self.le_i32(num)
        } else {
            self.be_i32(num)
        }
    }

    /// Appends `num` as 8 two's-complement bytes in the target's native
    /// byte order: the little-endian or the big-endian encoding, whichever
    /// the platform uses.
    fn ne_i64(&mut self, num: i64) -> (r: Result<(), Self::Error>)
        ensures
            r is Ok <==> old(self).fits(8),
            r is Ok ==> final(self).contents() == old(self).contents() + le_bytes(
                as_unsigned(num as int, 8),
                8,
            ) || final(self).contents() == old(self).contents() + be_bytes(
                as_unsigned(num as int, 8),
                8,
            ),
            r is Err ==> final(self).contents() == old(self).contents(),
    {
        if native_is_little() {
            self.le_i64(num)
        } else {
            self.be_i64(num)
        }
    }

    /// Appends `num` as 16 two's-complement bytes in the target's native
    /// byte order: the little-endian or the big-endian encoding, whichever
    /// the platform uses.
    fn ne_i128(&mut self, num: i128) -> (r: Result<(), Self::Error>)
        ensures
            r is Ok <==> old(self).fits(16),
            r is Ok ==> final(self).contents() == old(self).contents() + le_bytes(
                as_unsigned(num as int, 16),
                16,
            ) || final(self).contents() == old(self).contents() + be_bytes(
                as_unsigned(num as int, 16),
                16,
            ),
            r is Err ==> final(self).contents() == old(self).contents(),
    {
        if native_is_little() {
            self.le_i128(num)
        } else {
            self.be_i128(num)
        }
    }
}

impl<B: Barfer<u8>> ByteBarferExt for B {}

/// Extensions for [`Barfer<char>`].
pub trait CharBarferExt: Barfer<char> {
    /// Appends the characters of `s`, in order, through [`Barfer::many`]:
    /// an empty string always succeeds, and a failure means the store kept
    /// a strict prefix and had no room for the rest — so on a store that
    /// always fits, such as a growable one, the call always succeeds.
    fn string(&mut self, s: &str) -> (r: Result<(), Self::Error>)
        ensures
            r is Ok ==> final(self).contents() == old(self).contents() + s@,
            s@.len() == 0 ==> r is Ok,
            r is Err ==> exists|k: int|
                #![trigger s@.subrange(0, k)]
                0 <= k < s@.len() && final(self).contents() == old(self).contents() + s@.subrange(
                    0,
                    k,
                ) && !final(self).fits((s@.len() - k) as nat),
    {
        self.many(chars_vec(s))
    }
}

impl<B: Barfer<char>> CharBarferExt for B {}

} // verus!
