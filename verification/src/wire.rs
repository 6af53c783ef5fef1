//! Big-endian integers on the wire.
use vstd::prelude::*;

verus! {

/// The byte that ends up `n` places from the least significant end of `x`.
pub open spec fn byte_at(x: int, n: nat) -> u8
    decreases n,
{
    if n == 0 {
        (x % 0x100) as u8
    } else {
        byte_at(x / 0x100, (n - 1) as nat)
    }
}

/// The number that the first `n` bytes of `b` stand for, most significant
/// first.
pub open spec fn be_value(b: Seq<u8>, n: nat) -> int
    decreases n,
{
    if n == 0 {
        0
    } else {
        be_value(b, (n - 1) as nat) * 0x100 + b[n - 1]
    }
}

/// The eight bytes of `x`, most significant first.
pub open spec fn be_u64(x: u64) -> Seq<u8> {
    Seq::new(8, |i: int| byte_at(x as int, (7 - i) as nat))
}

/// The number that the first eight bytes of `b` stand for.
pub open spec fn u64_of_be(b: Seq<u8>) -> u64 {
    be_value(b, 8) as u64
}

/// `x` in two's complement.
pub open spec fn unsigned_of(x: i32) -> u32 {
    if x >= 0 {
        x as u32
    } else {
        (x + 0x1_0000_0000) as u32
    }
}

/// The number whose two's complement is `x`.
pub open spec fn signed_of(x: u32) -> i32 {
    if x < 0x8000_0000 {
        x as i32
    } else {
        (x - 0x1_0000_0000) as i32
    }
}

/// The four bytes of `x` in two's complement, most significant first.
pub open spec fn be_i32(x: i32) -> Seq<u8> {
    Seq::new(4, |i: int| byte_at(unsigned_of(x) as int, (3 - i) as nat))
}

/// The signed number that the first four bytes of `b` stand for.
pub open spec fn i32_of_be(b: Seq<u8>) -> i32 {
    signed_of(be_value(b, 4) as u32)
}

/// The value of `n` bytes lies below `256^n`, here for the sizes in use.
pub proof fn lemma_be_value_bound(b: Seq<u8>)
    ensures
        0 <= be_value(b, 4) < 0x1_0000_0000,
        0 <= be_value(b, 8) <= u64::MAX,
{
    reveal_with_fuel(be_value, 9);
}

/// Reading back what was written gives the number written, and writing
/// what was read gives the bytes read.
pub proof fn lemma_be_u64_roundtrip(x: u64, b: Seq<u8>)
    requires
        b.len() == 8,
    ensures
        be_u64(x).len() == 8,
        u64_of_be(be_u64(x)) == x,
        be_u64(u64_of_be(b)) == b,
{
    reveal_with_fuel(be_value, 9);
    reveal_with_fuel(byte_at, 9);
    let w = be_u64(x);
    assert(w[0] == byte_at(x as int, 7));
    assert(w[1] == byte_at(x as int, 6));
    assert(w[2] == byte_at(x as int, 5));
    assert(w[3] == byte_at(x as int, 4));
    assert(w[4] == byte_at(x as int, 3));
    assert(w[5] == byte_at(x as int, 2));
    assert(w[6] == byte_at(x as int, 1));
    assert(w[7] == byte_at(x as int, 0));
    assert(be_value(w, 8) == x);
    let v = be_value(b, 8);
    let r = be_u64(v as u64);
    assert(r[7] == b[7]);
    assert(r[6] == b[6]);
    assert(r[5] == b[5]);
    assert(r[4] == b[4]);
    assert(r[3] == b[3]);
    assert(r[2] == b[2]);
    assert(r[1] == b[1]);
    assert(r[0] == b[0]);
    assert(r =~= b);
}

/// Reading back what was written gives the number written, and writing
/// what was read gives the bytes read.
pub proof fn lemma_be_i32_roundtrip(x: i32, b: Seq<u8>)
    requires
        b.len() == 4,
    ensures
        be_i32(x).len() == 4,
        i32_of_be(be_i32(x)) == x,
        be_i32(i32_of_be(b)) == b,
{
    reveal_with_fuel(be_value, 5);
    reveal_with_fuel(byte_at, 5);
    let u = unsigned_of(x);
    let w = be_i32(x);
    assert(w[0] == byte_at(u as int, 3));
    assert(w[1] == byte_at(u as int, 2));
    assert(w[2] == byte_at(u as int, 1));
    assert(w[3] == byte_at(u as int, 0));
    assert(be_value(w, 4) == u);
    let v = be_value(b, 4);
    assert(unsigned_of(signed_of(v as u32)) == v);
    let r = be_i32(i32_of_be(b));
    assert(r[3] == b[3]);
    assert(r[2] == b[2]);
    assert(r[1] == b[1]);
    assert(r[0] == b[0]);
    assert(r =~= b);
}

/// Appends the eight bytes of `x`.
pub fn put_u64(out: &mut Vec<u8>, x: u64)
    ensures
        final(out)@ == old(out)@ + be_u64(x),
{
    let x1: u64 = x / 0x100;
    let x2: u64 = x1 / 0x100;
    let x3: u64 = x2 / 0x100;
    let x4: u64 = x3 / 0x100;
    let x5: u64 = x4 / 0x100;
    let x6: u64 = x5 / 0x100;
    let x7: u64 = x6 / 0x100;
    out.push((x7 % 0x100) as u8);
    out.push((x6 % 0x100) as u8);
    out.push((x5 % 0x100) as u8);
    out.push((x4 % 0x100) as u8);
    out.push((x3 % 0x100) as u8);
    out.push((x2 % 0x100) as u8);
    out.push((x1 % 0x100) as u8);
    out.push((x % 0x100) as u8);
    proof {
        reveal_with_fuel(byte_at, 9);
        assert(out@ =~= old(out)@ + be_u64(x));
    }
}

/// Appends the four bytes of `x` in two's complement.
pub fn put_i32(out: &mut Vec<u8>, x: i32)
    ensures
        final(out)@ == old(out)@ + be_i32(x),
{
    let wide: i64 = if x >= 0 {
        x as i64
    } else {
        x as i64 + 0x1_0000_0000
    };
    let u: u32 = wide as u32;
    let u1: u32 = u / 0x100;
    let u2: u32 = u1 / 0x100;
    let u3: u32 = u2 / 0x100;
    out.push((u3 % 0x100) as u8);
    out.push((u2 % 0x100) as u8);
    out.push((u1 % 0x100) as u8);
    out.push((u % 0x100) as u8);
    proof {
        reveal_with_fuel(byte_at, 5);
        assert(out@ =~= old(out)@ + be_i32(x));
    }
}

/// Reads eight bytes at `at`.
pub fn get_u64(bytes: &[u8], at: usize) -> (x: u64)
    requires
        at + 8 <= bytes@.len(),
    ensures
        x == u64_of_be(bytes@.subrange(at as int, at + 8)),
{
    let ghost b = bytes@.subrange(at as int, at + 8);
    proof {
        reveal_with_fuel(be_value, 9);
        lemma_be_value_bound(b);
    }
    let n = bytes.len();
    let mut x: u64 = 0;
    let mut i: usize = 0;
    while i < 8
        invariant
            i <= 8,
            n == bytes@.len(),
            at + 8 <= bytes@.len(),
            b == bytes@.subrange(at as int, at + 8),
            x == be_value(b, i as nat),
            be_value(b, 8) <= u64::MAX,
        decreases 8 - i,
    {
        proof {
            reveal_with_fuel(be_value, 9);
            assert(b[i as int] == bytes@[at + i]);
            assert(be_value(b, (i + 1) as nat) <= be_value(b, 8));
        }
        x = x * 0x100 + bytes[at + i] as u64;
        i += 1;
    }
    x
}

/// Reads four bytes at `at` as a signed number.
pub fn get_i32(bytes: &[u8], at: usize) -> (x: i32)
    requires
        at + 4 <= bytes@.len(),
    ensures
        x == i32_of_be(bytes@.subrange(at as int, at + 4)),
{
    let ghost b = bytes@.subrange(at as int, at + 4);
    proof {
        reveal_with_fuel(be_value, 5);
        assert(b[0] == bytes@[at + 0]);
        assert(b[1] == bytes@[at + 1]);
        assert(b[2] == bytes@[at + 2]);
        assert(b[3] == bytes@[at + 3]);
    }
    let b0: i64 = bytes[at] as i64;
    let b1: i64 = bytes[at + 1] as i64;
    let b2: i64 = bytes[at + 2] as i64;
    let b3: i64 = bytes[at + 3] as i64;
    let u: i64 = ((b0 * 0x100 + b1) * 0x100 + b2) * 0x100 + b3;
    if u < 0x8000_0000 {
        u as i32
    } else {
        (u - 0x1_0000_0000) as i32
    }
}

} // verus!
