//! Values in user memory: what the kernel stores there, and the order of bytes.
use vstd::prelude::*;

verus! {

/// Bytes to be stored at an address of the current address space.
#[derive(Debug)]
pub struct UserWrite {
    pub addr: usize,
    pub bytes: Vec<u8>,
}

/// The bytes of a number of eight bytes, the lowest first.
pub open spec fn le_bytes(x: u64) -> Seq<u8> {
    Seq::new(8, |i: int| le_byte(x, i))
}

/// Byte `i` of a number, counted from the lowest.
pub open spec fn le_byte(x: u64, i: int) -> u8 {
    (if i == 0 {
        x % 256
    } else if i == 1 {
        x / 0x100 % 256
    } else if i == 2 {
        x / 0x1_0000 % 256
    } else if i == 3 {
        x / 0x100_0000 % 256
    } else if i == 4 {
        x / 0x1_0000_0000 % 256
    } else if i == 5 {
        x / 0x100_0000_0000 % 256
    } else if i == 6 {
        x / 0x1_0000_0000_0000 % 256
    } else {
        x / 0x100_0000_0000_0000 % 256
    }) as u8
}

/// The number whose eight bytes, the lowest first, are those of `s`.
pub open spec fn le_value(s: Seq<u8>) -> u64 {
    (s[0] + s[1] * 0x100 + s[2] * 0x1_0000 + s[3] * 0x100_0000 + s[4] * 0x1_0000_0000 + s[5]
        * 0x100_0000_0000 + s[6] * 0x1_0000_0000_0000 + s[7] * 0x100_0000_0000_0000) as u64
}

/// The bytes of a number, the lowest first.
pub fn to_le_bytes(x: u64) -> (r: Vec<u8>)
    ensures
        r@ == le_bytes(x),
{
    let mut out: Vec<u8> = Vec::new();
    out.push((x % 256) as u8);
    out.push((x / 0x100 % 256) as u8);
    out.push((x / 0x1_0000 % 256) as u8);
    out.push((x / 0x100_0000 % 256) as u8);
    out.push((x / 0x1_0000_0000 % 256) as u8);
    out.push((x / 0x100_0000_0000 % 256) as u8);
    out.push((x / 0x1_0000_0000_0000 % 256) as u8);
    out.push((x / 0x100_0000_0000_0000 % 256) as u8);
    assert(out@ =~= le_bytes(x));
    out
}

/// The number in the first eight bytes of `s`.
pub fn from_le_bytes(s: &[u8]) -> (r: u64)
    requires
        s@.len() >= 8,
    ensures
        r == le_value(s@),
{
    s[0] as u64 + s[1] as u64 * 0x100 + s[2] as u64 * 0x1_0000 + s[3] as u64 * 0x100_0000 + s[4] as u64
        * 0x1_0000_0000 + s[5] as u64 * 0x100_0000_0000 + s[6] as u64 * 0x1_0000_0000_0000 + s[7] as u64
        * 0x100_0000_0000_0000
}

proof fn lemma_digits(
    x: int,
    s: Seq<u8>,
    q1: int,
    q2: int,
    q3: int,
    q4: int,
    q5: int,
    q6: int,
)
    requires
        s.len() == 8,
        x == 256 * q1 + s[0],
        q1 == 256 * q2 + s[1],
        q2 == 256 * q3 + s[2],
        q3 == 256 * q4 + s[3],
        q4 == 256 * q5 + s[4],
        q5 == 256 * q6 + s[5],
        q6 == 256 * s[7] + s[6],
    ensures
        x == s[0] + s[1] * 0x100 + s[2] * 0x1_0000 + s[3] * 0x100_0000 + s[4] * 0x1_0000_0000
            + s[5] * 0x100_0000_0000 + s[6] * 0x1_0000_0000_0000 + s[7] * 0x100_0000_0000_0000,
{
}

/// Taking a number apart into bytes and putting them together gives the number.
pub proof fn law_bytes_round_trip(x: u64)
    ensures
        le_value(le_bytes(x)) == x,
{
    let s = le_bytes(x);
    let q1 = x / 0x100;
    let q2 = x / 0x1_0000;
    let q3 = x / 0x100_0000;
    let q4 = x / 0x1_0000_0000;
    let q5 = x / 0x100_0000_0000;
    let q6 = x / 0x1_0000_0000_0000;
    let q7 = x / 0x100_0000_0000_0000;
    assert(x == 256 * q1 + s[0]);
    assert(q1 == 256 * q2 + s[1]) by {
        assert(q2 == q1 / 256);
    }
    assert(q2 == 256 * q3 + s[2]) by {
        assert(q3 == q2 / 256);
    }
    assert(q3 == 256 * q4 + s[3]) by {
        assert(q4 == q3 / 256);
    }
    assert(q4 == 256 * q5 + s[4]) by {
        assert(q5 == q4 / 256);
    }
    assert(q5 == 256 * q6 + s[5]) by {
        assert(q6 == q5 / 256);
    }
    assert(q6 == 256 * q7 + s[6]) by {
        assert(q7 == q6 / 256);
    }
    assert(q7 == s[7]);
    lemma_digits(x as int, s, q1 as int, q2 as int, q3 as int, q4 as int, q5 as int, q6 as int);
}

/// The first byte is the lowest: it is what is left of the number when it is divided by 256, and the
/// next seven are the bytes of the quotient.
pub proof fn law_lowest_byte_comes_first(x: u64, i: int)
    requires
        0 <= i < 7,
    ensures
        le_bytes(x).len() == 8,
        le_bytes(x)[0] == x % 256,
        le_bytes(x)[i + 1] == le_bytes((x / 256) as u64)[i],
{
}

} // verus!
