//! Byte-level codecs: the mathematical definitions of the fixed-width
//! little/big-endian formats and of the LEB128 variable-length format, the
//! round-trip laws that hold of them, and the verified encoders that the
//! append extensions use.

use vstd::prelude::*;

use vstd::arithmetic::div_mod::lemma_fundamental_div_mod;

verus! {

/// `256` raised to the power `n`: the number of values that `n` bytes span.
pub open spec fn pow256(n: nat) -> nat
    decreases n,
{
    if n == 0 {
        1
    } else {
        256 * pow256((n - 1) as nat)
    }
}

/// The `n`-byte little-endian encoding of `v` (modulo `256^n`): least
/// significant byte first.
pub open spec fn le_bytes(v: nat, n: nat) -> Seq<u8>
    decreases n,
{
    if n == 0 {
        Seq::empty()
    } else {
        seq![(v % 256) as u8] + le_bytes(v / 256, (n - 1) as nat)
    }
}

/// The value that a little-endian byte sequence denotes.
pub open spec fn from_le(s: Seq<u8>) -> nat
    decreases s.len(),
{
    if s.len() == 0 {
        0
    } else {
        (s[0] + 256 * from_le(s.drop_first())) as nat
    }
}

/// The `n`-byte big-endian encoding of `v`: most significant byte first.
pub open spec fn be_bytes(v: nat, n: nat) -> Seq<u8> {
    le_bytes(v, n).reverse()
}

/// The value that a big-endian byte sequence denotes.
pub open spec fn from_be(s: Seq<u8>) -> nat {
    from_le(s.reverse())
}

/// The two's-complement reading of `v` as an unsigned value of `n` bytes.
pub open spec fn as_unsigned(v: int, n: nat) -> nat {
    if v >= 0 {
        v as nat
    } else {
        (v + pow256(n)) as nat
    }
}

/// The signed value that the unsigned `n`-byte value `u` denotes in two's
/// complement.
pub open spec fn as_signed(u: nat, n: nat) -> int {
    if u < pow256(n) / 2 {
        u as int
    } else {
        u - pow256(n)
    }
}

/// The unsigned LEB128 encoding of `v`: seven payload bits per byte, least
/// significant group first, high bit set on every byte but the last.
pub open spec fn uleb128_seq(v: nat) -> Seq<u8>
    decreases v,
{
    if v < 128 {
        seq![v as u8]
    } else {
        seq![(v % 128 + 128) as u8] + uleb128_seq(v / 128)
    }
}

/// The value that an unsigned LEB128 byte sequence denotes.
pub open spec fn from_uleb128(s: Seq<u8>) -> nat
    decreases s.len(),
{
    if s.len() == 0 {
        0
    } else if s[0] < 128 {
        s[0] as nat
    } else {
        ((s[0] - 128) + 128 * from_uleb128(s.drop_first())) as nat
    }
}

/// The signed LEB128 encoding of `v`: seven payload bits per byte in two's
/// complement, sign-extended, high bit set on every byte but the last.
pub open spec fn sleb128_seq(v: int) -> Seq<u8>
    decreases vstd::math::abs(v),
{
    if -64 <= v < 64 {
        seq![(v % 128) as u8]
    } else {
        seq![(v % 128 + 128) as u8] + sleb128_seq(v / 128)
    }
}

/// The value that a signed LEB128 byte sequence denotes.
pub open spec fn from_sleb128(s: Seq<u8>) -> int
    decreases s.len(),
{
    if s.len() == 0 {
        0
    } else if s[0] < 64 {
        s[0] as int
    } else if s[0] < 128 {
        s[0] - 128
    } else {
        (s[0] - 128) + 128 * from_sleb128(s.drop_first())
    }
}

/// The zigzag mapping that folds signed 64-bit values into unsigned ones:
/// `0, -1, 1, -2, ...` become `0, 1, 2, 3, ...`.
pub open spec fn zigzag(v: i64) -> u64 {
    if v >= 0 {
        (2 * (v as int)) as u64
    } else {
        ((-2) * (v as int) - 1) as u64
    }
}

/// The signed value that the zigzag-folded `u` denotes.
pub open spec fn unzigzag(u: u64) -> int {
    if u % 2 == 0 {
        (u as int) / 2
    } else {
        -((u as int) + 1) / 2
    }
}

/// A little-endian encoding is as long as requested.
pub proof fn lemma_le_bytes_len(v: nat, n: nat)
    ensures
        le_bytes(v, n).len() == n,
    decreases n,
{
    if n > 0 {
        lemma_le_bytes_len(v / 256, (n - 1) as nat);
    }
}

/// Round trip of the fixed-width little-endian format: decoding the
/// `n`-byte encoding of any value below `256^n` yields the value back.
pub proof fn lemma_le_round_trip(v: nat, n: nat)
    requires
        v < pow256(n),
    ensures
        from_le(le_bytes(v, n)) == v,
    decreases n,
{
    if n == 0 {
        assert(v == 0);
    } else {
        let rest = (n - 1) as nat;
        assert(v / 256 < pow256(rest)) by {
            lemma_fundamental_div_mod(v as int, 256);
        }
        lemma_le_round_trip(v / 256, rest);
        assert(le_bytes(v, n).drop_first() =~= le_bytes(v / 256, rest));
        assert(v % 256 + 256 * (v / 256) == v) by {
            lemma_fundamental_div_mod(v as int, 256);
        }
    }
}

/// Round trip of the fixed-width big-endian format.
pub proof fn lemma_be_round_trip(v: nat, n: nat)
    requires
        v < pow256(n),
    ensures
        from_be(be_bytes(v, n)) == v,
{
    assert(le_bytes(v, n).reverse().reverse() =~= le_bytes(v, n));
    lemma_le_round_trip(v, n);
}

/// Round trip of the two's-complement reading: folding a representable
/// signed value into `n` unsigned bytes and back yields the value.
pub proof fn lemma_signed_round_trip(v: int, n: nat)
    requires
        n >= 1,
        -(pow256(n) / 2) <= v < pow256(n) / 2,
    ensures
        as_unsigned(v, n) < pow256(n),
        as_signed(as_unsigned(v, n), n) == v,
{
    lemma_pow256_even(n);
}

/// `256^n` is positive, and even for `n >= 1`.
pub proof fn lemma_pow256_even(n: nat)
    ensures
        pow256(n) >= 1,
        n >= 1 ==> pow256(n) == 2 * (pow256(n) / 2),
    decreases n,
{
    if n >= 1 {
        lemma_pow256_even((n - 1) as nat);
    }
}

/// Round trip of the unsigned LEB128 format.
pub proof fn lemma_uleb128_round_trip(v: nat)
    ensures
        from_uleb128(uleb128_seq(v)) == v,
    decreases v,
{
    if v >= 128 {
        lemma_uleb128_round_trip(v / 128);
        assert(uleb128_seq(v).drop_first() =~= uleb128_seq(v / 128));
        lemma_fundamental_div_mod(v as int, 128);
    }
}

/// Round trip of the signed LEB128 format.
pub proof fn lemma_sleb128_round_trip(v: int)
    ensures
        from_sleb128(sleb128_seq(v)) == v,
    decreases vstd::math::abs(v),
{
    if -64 <= v < 64 {
        if v < 0 {
            assert(v % 128 == v + 128) by {
                lemma_fundamental_div_mod(v, 128);
            }
        }
    } else {
        lemma_sleb128_round_trip(v / 128);
        assert(sleb128_seq(v).drop_first() =~= sleb128_seq(v / 128));
        lemma_fundamental_div_mod(v, 128);
    }
}

/// `128` raised to the power `n`: the number of values that `n` LEB128
/// payload groups span.
pub open spec fn pow128(n: nat) -> nat
    decreases n,
{
    if n == 0 {
        1
    } else {
        128 * pow128((n - 1) as nat)
    }
}

/// An unsigned LEB128 encoding of a value below `128^k` takes at most `k`
/// bytes.
pub proof fn lemma_uleb128_len_at_most(v: nat, k: nat)
    requires
        k >= 1,
        v < pow128(k),
    ensures
        1 <= uleb128_seq(v).len() <= k,
    decreases k,
{
    if v >= 128 {
        assert(k >= 2) by {
            reveal_with_fuel(pow128, 3);
        }
        assert(v / 128 < pow128((k - 1) as nat)) by {
            lemma_fundamental_div_mod(v as int, 128);
        }
        lemma_uleb128_len_at_most(v / 128, (k - 1) as nat);
    }
}

/// A 64-bit value's unsigned LEB128 encoding takes at most ten bytes, so a
/// ten-byte scratch buffer always suffices.
pub proof fn lemma_uleb128_max_ten(v: u64)
    ensures
        1 <= uleb128_seq(v as nat).len() <= 10,
{
    assert(pow128(10) == 0x40_0000_0000_0000_0000) by {
        reveal_with_fuel(pow128, 11);
    }
    lemma_uleb128_len_at_most(v as nat, 10);
}

/// A signed LEB128 encoding of a value within `±64 * 128^(k-1)` takes at
/// most `k` bytes.
pub proof fn lemma_sleb128_len_at_most(v: int, k: nat)
    requires
        k >= 1,
        -64 * pow128((k - 1) as nat) <= v < 64 * pow128((k - 1) as nat),
    ensures
        1 <= sleb128_seq(v).len() <= k,
    decreases k,
{
    if !(-64 <= v < 64) {
        assert(k >= 2) by {
            reveal_with_fuel(pow128, 3);
        }
        let p = pow128((k - 2) as nat);
        assert(pow128((k - 1) as nat) == 128 * p);
        assert(-64 * p <= v / 128 < 64 * p) by {
            lemma_fundamental_div_mod(v, 128);
        }
        lemma_sleb128_len_at_most(v / 128, (k - 1) as nat);
    }
}

/// A 64-bit value's signed LEB128 encoding takes at most ten bytes, so a
/// ten-byte scratch buffer always suffices.
pub proof fn lemma_sleb128_max_ten(v: i64)
    ensures
        1 <= sleb128_seq(v as int).len() <= 10,
{
    assert(64 * pow128(9) == 0x20_0000_0000_0000_0000) by {
        reveal_with_fuel(pow128, 10);
    }
    lemma_sleb128_len_at_most(v as int, 10);
}

/// Round trip of the zigzag fold.
pub proof fn lemma_zigzag_round_trip(v: i64)
    ensures
        unzigzag(zigzag(v)) == v as int,
{
}

/// Encodes the low `n` bytes of `v` in little-endian order.
pub fn le_encode(v: u128, n: usize) -> (r: Vec<u8>)
    ensures
        r@ == le_bytes(v as nat, n as nat),
        r@.len() == n,
{
    let mut r: Vec<u8> = Vec::new();
    let mut x: u128 = v;
    let mut i: usize = 0;
    while i < n
        invariant
            i <= n,
            r@.len() == i,
            r@ + le_bytes(x as nat, (n - i) as nat) == le_bytes(v as nat, n as nat),
        decreases n - i,
    {
        let ghost r0 = r@;
        r.push((x % 256) as u8);
        proof {
            assert(r@ + le_bytes((x as nat) / 256, (n - i - 1) as nat) =~= r0 + le_bytes(
                x as nat,
                (n - i) as nat,
            ));
        }
        x = x / 256;
        i += 1;
    }
    proof {
        assert(r@ + le_bytes(x as nat, 0) =~= r@);
    }
    r
}

/// Encodes the low `n` bytes of `v` in big-endian order.
pub fn be_encode(v: u128, n: usize) -> (r: Vec<u8>)
    ensures
        r@ == be_bytes(v as nat, n as nat),
        r@.len() == n,
{
    let le = le_encode(v, n);
    let mut r: Vec<u8> = Vec::new();
    let mut i: usize = le.len();
    while i > 0
        invariant
            i <= le@.len(),
            r@ == le@.subrange(i as int, le@.len() as int).reverse(),
        decreases i,
    {
        i = i - 1;
        r.push(le[i]);
        proof {
            assert(r@ =~= le@.subrange(i as int, le@.len() as int).reverse());
        }
    }
    proof {
        assert(r@ =~= le@.reverse());
    }
    r
}

/// The two's-complement unsigned reading of an `i8`.
pub fn unsigned_of_i8(v: i8) -> (r: u8)
    ensures
        r == as_unsigned(v as int, 1),
{
    proof {
        reveal_with_fuel(pow256, 3);
    }
    if v >= 0 {
        v as u8
    } else {
        ((v as i16) + 0x100) as u8
    }
}

/// The two's-complement unsigned reading of an `i16`.
pub fn unsigned_of_i16(v: i16) -> (r: u16)
    ensures
        r == as_unsigned(v as int, 2),
{
    proof {
        reveal_with_fuel(pow256, 4);
    }
    if v >= 0 {
        v as u16
    } else {
        ((v as i32) + 0x1_0000) as u16
    }
}

/// The two's-complement unsigned reading of an `i32`.
pub fn unsigned_of_i32(v: i32) -> (r: u32)
    ensures
        r == as_unsigned(v as int, 4),
{
    proof {
        reveal_with_fuel(pow256, 6);
    }
    if v >= 0 {
        v as u32
    } else {
        ((v as i64) + 0x1_0000_0000) as u32
    }
}

/// The two's-complement unsigned reading of an `i64`.
pub fn unsigned_of_i64(v: i64) -> (r: u64)
    ensures
        r == as_unsigned(v as int, 8),
{
    proof {
        reveal_with_fuel(pow256, 10);
    }
    if v >= 0 {
        v as u64
    } else {
        ((v as i128) + 0x1_0000_0000_0000_0000) as u64
    }
}

/// The two's-complement unsigned reading of an `i128`.
pub fn unsigned_of_i128(v: i128) -> (r: u128)
    ensures
        r == as_unsigned(v as int, 16),
{
    proof {
        reveal_with_fuel(pow256, 18);
    }
    if v >= 0 {
        v as u128
    } else {
        u128::MAX - ((-(v + 1)) as u128)
    }
}

} // verus!
