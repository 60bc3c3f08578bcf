//! Byte- and bit-level readers over the raw buffer. Multi-byte integers are
//! little-endian; bit fields are packed most-significant bit first, as the
//! tag stream's header and matrix records store them.

use vstd::prelude::*;

use vstd::arithmetic::power2::{
    lemma2_to64, lemma_pow2_strictly_increases, lemma_pow2_unfold, pow2,
};

verus! {

/// Hard cap on the raw buffer the readers accept: keeps every byte and bit
/// position comfortably inside machine integers.
pub const BUF_CAP: usize = 0x0800_0000;

/// The place value of bit `r` of a byte, counting from the most significant.
pub open spec fn msb_weight(r: int) -> int {
    if r == 0 {
        128
    } else if r == 1 {
        64
    } else if r == 2 {
        32
    } else if r == 3 {
        16
    } else if r == 4 {
        8
    } else if r == 5 {
        4
    } else if r == 6 {
        2
    } else {
        1
    }
}

/// The value (0 or 1) of bit `i` of the buffer, bits counted from the most
/// significant bit of byte 0 onwards.
pub open spec fn bit_val(b: Seq<u8>, i: int) -> int {
    ((b[i / 8] as int) / msb_weight(i % 8)) % 2
}

/// The unsigned value of the `n` bits starting at bit `i`, first bit most
/// significant.
pub open spec fn ubits(b: Seq<u8>, i: int, n: nat) -> int
    decreases n,
{
    if n == 0 {
        0
    } else {
        ubits(b, i, (n - 1) as nat) * 2 + bit_val(b, i + n - 1)
    }
}

/// The value of an `n`-bit field read as a two's-complement signed number.
pub open spec fn sbits(b: Seq<u8>, i: int, n: nat) -> int {
    if n > 0 && ubits(b, i, n) >= pow2((n - 1) as nat) {
        ubits(b, i, n) - pow2(n)
    } else {
        ubits(b, i, n)
    }
}

/// An `n`-bit unsigned field lies in `[0, 2^n)`.
pub proof fn lemma_ubits_bound(b: Seq<u8>, i: int, n: nat)
    ensures
        0 <= ubits(b, i, n) < pow2(n),
    decreases n,
{
    if n == 0 {
        lemma2_to64();
    } else {
        lemma_ubits_bound(b, i, (n - 1) as nat);
        lemma_pow2_unfold(n);
        assert(0 <= bit_val(b, i + n - 1) < 2);
    }
}

/// An `n`-bit signed field lies in `[-2^(n-1), 2^(n-1))`; for the widths
/// the stream uses it fits an `i32`.
pub proof fn lemma_sbits_bound(b: Seq<u8>, i: int, n: nat)
    requires
        n <= 31,
    ensures
        -0x4000_0000 <= sbits(b, i, n) < 0x4000_0000,
{
    lemma_ubits_bound(b, i, n);
    lemma2_to64();
    if n > 0 {
        lemma_pow2_unfold(n);
        if n < 31 {
            lemma_pow2_strictly_increases((n - 1) as nat, 30);
        }
    }
}

/// The unsigned little-endian value of the two bytes at `i`.
pub open spec fn u16le(b: Seq<u8>, i: int) -> int {
    b[i] + 256 * (b[i + 1] as int)
}

/// The unsigned little-endian value of the four bytes at `i`.
pub open spec fn u32le(b: Seq<u8>, i: int) -> int {
    b[i] + 0x100 * (b[i + 1] as int) + 0x1_0000 * (b[i + 2] as int) + 0x100_0000 * (b[i
        + 3] as int)
}

/// Reads one bit of the buffer.
pub fn read_bit(b: &Vec<u8>, i: usize) -> (r: u8)
    requires
        b@.len() <= BUF_CAP,
        i < b@.len() * 8,
    ensures
        r as int == bit_val(b@, i as int),
        r <= 1,
{
    let byte = b[i / 8];
    let w: u8 = match i % 8 {
        0 => 128,
        1 => 64,
        2 => 32,
        3 => 16,
        4 => 8,
        5 => 4,
        6 => 2,
        _ => 1,
    };
    (byte / w) % 2
}

/// 2 to the power `n`, for the small exponents bit fields need.
pub fn pow2_u64(n: usize) -> (r: u64)
    requires
        n <= 32,
    ensures
        r as nat == pow2(n as nat),
        r >= 1,
{
    let mut r: u64 = 1;
    let mut i: usize = 0;
    proof {
        lemma2_to64();
    }
    while i < n
        invariant
            i <= n,
            n <= 32,
            r as nat == pow2(i as nat),
            r >= 1,
        decreases n - i,
    {
        proof {
            lemma_pow2_unfold(i as nat + 1);
            if i as nat + 1 < 32 {
                lemma_pow2_strictly_increases(i as nat + 1, 32);
            }
            lemma2_to64();
        }
        r = r * 2;
        i += 1;
    }
    r
}

/// Reads the `n` bits starting at bit `i` as an unsigned value.
pub fn read_ubits(b: &Vec<u8>, i: usize, n: usize) -> (r: u64)
    requires
        b@.len() <= BUF_CAP,
        i + n <= b@.len() * 8,
        n <= 32,
    ensures
        r as int == ubits(b@, i as int, n as nat),
        (r as nat) < pow2(n as nat),
{
    let mut r: u64 = 0;
    let mut j: usize = 0;
    proof {
        lemma_ubits_bound(b@, i as int, n as nat);
        lemma2_to64();
    }
    while j < n
        invariant
            j <= n,
            n <= 32,
            b@.len() <= BUF_CAP,
            i + n <= b@.len() * 8,
            r as int == ubits(b@, i as int, j as nat),
            (r as nat) < pow2(j as nat),
        decreases n - j,
    {
        proof {
            lemma_pow2_unfold(j as nat + 1);
            if j as nat + 1 < 32 {
                lemma_pow2_strictly_increases(j as nat + 1, 32);
            }
            lemma2_to64();
        }
        let bit = read_bit(b, i + j);
        r = r * 2 + bit as u64;
        j += 1;
    }
    r
}

/// Reads the `n` bits starting at bit `i` as a signed two's-complement
/// value.
pub fn read_sbits(b: &Vec<u8>, i: usize, n: usize) -> (r: i32)
    requires
        b@.len() <= BUF_CAP,
        i + n <= b@.len() * 8,
        n <= 31,
    ensures
        r as int == sbits(b@, i as int, n as nat),
{
    let u = read_ubits(b, i, n);
    proof {
        lemma_ubits_bound(b@, i as int, n as nat);
        lemma_sbits_bound(b@, i as int, n as nat);
        lemma2_to64();
    }
    if n > 0 {
        let half = pow2_u64(n - 1);
        proof {
            lemma_pow2_unfold(n as nat);
        }
        if u >= half {
            return ((u as i64) - 2 * (half as i64)) as i32;
        }
    }
    u as i32
}

/// Reads the two bytes at `i` as a little-endian unsigned value.
pub fn read_u16le(b: &Vec<u8>, i: usize) -> (r: u16)
    requires
        b@.len() <= BUF_CAP,
        i + 2 <= b@.len(),
    ensures
        r as int == u16le(b@, i as int),
{
    (b[i] as u16) + 256 * (b[i + 1] as u16)
}

/// Reads the four bytes at `i` as a little-endian unsigned value.
pub fn read_u32le(b: &Vec<u8>, i: usize) -> (r: u32)
    requires
        b@.len() <= BUF_CAP,
        i + 4 <= b@.len(),
    ensures
        r as int == u32le(b@, i as int),
{
    (b[i] as u32) + 0x100 * (b[i + 1] as u32) + 0x1_0000 * (b[i + 2] as u32) + 0x100_0000 * (b[i
        + 3] as u32)
}

} // verus!
