//! The byte-level building blocks of the record layout: little-endian
//! integers, single-byte booleans, length-prefixed byte fields, and raw
//! fixed-width fields. Every record and every instruction payload is a
//! concatenation of these.

use vstd::prelude::*;

verus! {

// ---------------------------------------------------------------------------
// Little-endian u32 (the length prefix of every variable-length field)
// ---------------------------------------------------------------------------

/// The four little-endian bytes of a 32-bit value.
pub open spec fn spec_le32(x: u32) -> Seq<u8> {
    seq![
        (x & 0xff) as u8,
        ((x >> 8) & 0xff) as u8,
        ((x >> 16) & 0xff) as u8,
        ((x >> 24) & 0xff) as u8,
    ]
}

/// The 32-bit value read from four little-endian bytes.
pub open spec fn spec_le32_val(b: Seq<u8>) -> u32
    recommends
        b.len() == 4,
{
    (b[0] as u32) | ((b[1] as u32) << 8) | ((b[2] as u32) << 16) | ((b[3] as u32) << 24)
}

pub proof fn lemma_le32_roundtrip(x: u32)
    ensures
        spec_le32(x).len() == 4,
        spec_le32_val(spec_le32(x)) == x,
{
    assert(((x & 0xff) as u8 as u32) | ((((x >> 8) & 0xff) as u8 as u32) << 8) | ((((x >> 16)
        & 0xff) as u8 as u32) << 16) | ((((x >> 24) & 0xff) as u8 as u32) << 24) == x)
        by (bit_vector);
}

pub fn le32_bytes(x: u32) -> (r: Vec<u8>)
    ensures
        r@ == spec_le32(x),
{
    proof {
        assert(x & 0xff < 256 && (x >> 8) & 0xff < 256 && (x >> 16) & 0xff < 256 && (x >> 24)
            & 0xff < 256) by (bit_vector);
    }
    let mut v: Vec<u8> = Vec::new();
    v.push((x & 0xff) as u8);
    v.push(((x >> 8) & 0xff) as u8);
    v.push(((x >> 16) & 0xff) as u8);
    v.push(((x >> 24) & 0xff) as u8);
    proof {
        assert(v@ =~= spec_le32(x));
    }
    v
}

pub fn read_le32(b: &Vec<u8>, pos: usize) -> (r: u32)
    requires
        pos + 4 <= b@.len(),
    ensures
        r == spec_le32_val(b@.subrange(pos as int, pos as int + 4)),
{
    let l = b.len();
    proof {
        assert(pos + 4 <= l <= usize::MAX);
    }
    (b[pos] as u32) | ((b[pos + 1] as u32) << 8) | ((b[pos + 2] as u32) << 16) | ((b[pos
        + 3] as u32) << 24)
}

// ---------------------------------------------------------------------------
// Little-endian u64 (the reply counter's count field)
// ---------------------------------------------------------------------------

/// The eight little-endian bytes of a 64-bit value.
pub open spec fn spec_le64(x: u64) -> Seq<u8> {
    seq![
        (x & 0xff) as u8,
        ((x >> 8) & 0xff) as u8,
        ((x >> 16) & 0xff) as u8,
        ((x >> 24) & 0xff) as u8,
        ((x >> 32) & 0xff) as u8,
        ((x >> 40) & 0xff) as u8,
        ((x >> 48) & 0xff) as u8,
        ((x >> 56) & 0xff) as u8,
    ]
}

/// The 64-bit value read from eight little-endian bytes.
pub open spec fn spec_le64_val(b: Seq<u8>) -> u64
    recommends
        b.len() == 8,
{
    (b[0] as u64) | ((b[1] as u64) << 8) | ((b[2] as u64) << 16) | ((b[3] as u64) << 24) | ((
    b[4] as u64) << 32) | ((b[5] as u64) << 40) | ((b[6] as u64) << 48) | ((b[7] as u64) << 56)
}

pub proof fn lemma_le64_roundtrip(x: u64)
    ensures
        spec_le64(x).len() == 8,
        spec_le64_val(spec_le64(x)) == x,
{
    assert(((x & 0xff) as u8 as u64) | ((((x >> 8) & 0xff) as u8 as u64) << 8) | ((((x >> 16)
        & 0xff) as u8 as u64) << 16) | ((((x >> 24) & 0xff) as u8 as u64) << 24) | ((((x >> 32)
        & 0xff) as u8 as u64) << 32) | ((((x >> 40) & 0xff) as u8 as u64) << 40) | ((((x >> 48)
        & 0xff) as u8 as u64) << 48) | ((((x >> 56) & 0xff) as u8 as u64) << 56) == x)
        by (bit_vector);
}

pub fn le64_bytes(x: u64) -> (r: Vec<u8>)
    ensures
        r@ == spec_le64(x),
{
    proof {
        assert(x & 0xff < 256 && (x >> 8) & 0xff < 256 && (x >> 16) & 0xff < 256 && (x >> 24)
            & 0xff < 256 && (x >> 32) & 0xff < 256 && (x >> 40) & 0xff < 256 && (x >> 48) & 0xff
            < 256 && (x >> 56) & 0xff < 256) by (bit_vector);
    }
    let mut v: Vec<u8> = Vec::new();
    v.push((x & 0xff) as u8);
    v.push(((x >> 8) & 0xff) as u8);
    v.push(((x >> 16) & 0xff) as u8);
    v.push(((x >> 24) & 0xff) as u8);
    v.push(((x >> 32) & 0xff) as u8);
    v.push(((x >> 40) & 0xff) as u8);
    v.push(((x >> 48) & 0xff) as u8);
    v.push(((x >> 56) & 0xff) as u8);
    proof {
        assert(v@ =~= spec_le64(x));
    }
    v
}

pub fn read_le64(b: &Vec<u8>, pos: usize) -> (r: u64)
    requires
        pos + 8 <= b@.len(),
    ensures
        r == spec_le64_val(b@.subrange(pos as int, pos as int + 8)),
{
    let l = b.len();
    proof {
        assert(pos + 8 <= l <= usize::MAX);
    }
    (b[pos] as u64) | ((b[pos + 1] as u64) << 8) | ((b[pos + 2] as u64) << 16) | ((b[pos
        + 3] as u64) << 24) | ((b[pos + 4] as u64) << 32) | ((b[pos + 5] as u64) << 40) | ((b[pos
        + 6] as u64) << 48) | ((b[pos + 7] as u64) << 56)
}

// ---------------------------------------------------------------------------
// Big-endian u64 (the reply index seed of the address derivation)
// ---------------------------------------------------------------------------

/// The eight big-endian bytes of a 64-bit value. Big-endian is deliberate:
/// it keeps the derivation seeds for small counts byte-wise distinguishable
/// in a fixed-width way suitable for deterministic enumeration tooling.
pub open spec fn spec_be64(x: u64) -> Seq<u8> {
    seq![
        ((x >> 56) & 0xff) as u8,
        ((x >> 48) & 0xff) as u8,
        ((x >> 40) & 0xff) as u8,
        ((x >> 32) & 0xff) as u8,
        ((x >> 24) & 0xff) as u8,
        ((x >> 16) & 0xff) as u8,
        ((x >> 8) & 0xff) as u8,
        (x & 0xff) as u8,
    ]
}

pub fn be64_bytes(x: u64) -> (r: Vec<u8>)
    ensures
        r@ == spec_be64(x),
{
    proof {
        assert(x & 0xff < 256 && (x >> 8) & 0xff < 256 && (x >> 16) & 0xff < 256 && (x >> 24)
            & 0xff < 256 && (x >> 32) & 0xff < 256 && (x >> 40) & 0xff < 256 && (x >> 48) & 0xff
            < 256 && (x >> 56) & 0xff < 256) by (bit_vector);
    }
    let mut v: Vec<u8> = Vec::new();
    v.push(((x >> 56) & 0xff) as u8);
    v.push(((x >> 48) & 0xff) as u8);
    v.push(((x >> 40) & 0xff) as u8);
    v.push(((x >> 32) & 0xff) as u8);
    v.push(((x >> 24) & 0xff) as u8);
    v.push(((x >> 16) & 0xff) as u8);
    v.push(((x >> 8) & 0xff) as u8);
    v.push((x & 0xff) as u8);
    proof {
        assert(v@ =~= spec_be64(x));
    }
    v
}

// ---------------------------------------------------------------------------
// Length-prefixed byte fields, booleans, raw fixed-width fields
// ---------------------------------------------------------------------------

/// A length-prefixed field: four little-endian length bytes, then the raw
/// bytes themselves.
pub open spec fn spec_encode_field(b: Seq<u8>) -> Seq<u8>
    recommends
        b.len() <= u32::MAX,
{
    spec_le32(b.len() as u32) + b
}

/// Reading a length-prefixed field from the front of a buffer: the field and
/// the remaining bytes, or nothing if the buffer is too short.
pub open spec fn spec_read_field(b: Seq<u8>) -> Option<(Seq<u8>, Seq<u8>)> {
    if b.len() >= 4 {
        let n = spec_le32_val(b.subrange(0, 4)) as int;
        if b.len() >= 4 + n {
            Some((b.subrange(4, 4 + n), b.subrange(4 + n, b.len() as int)))
        } else {
            None
        }
    } else {
        None
    }
}

/// A single-byte boolean: 1 for true, 0 for false; any other byte is
/// malformed.
pub open spec fn spec_encode_bool(x: bool) -> Seq<u8> {
    if x {
        seq![1u8]
    } else {
        seq![0u8]
    }
}

pub open spec fn spec_read_bool(b: Seq<u8>) -> Option<(bool, Seq<u8>)> {
    if b.len() >= 1 && (b[0] == 0u8 || b[0] == 1u8) {
        Some((b[0] == 1u8, b.subrange(1, b.len() as int)))
    } else {
        None
    }
}

/// Reading a raw fixed-width field of `n` bytes from the front of a buffer.
pub open spec fn spec_read_fixed(b: Seq<u8>, n: int) -> Option<(Seq<u8>, Seq<u8>)>
    recommends
        n >= 0,
{
    if b.len() >= n {
        Some((b.subrange(0, n), b.subrange(n, b.len() as int)))
    } else {
        None
    }
}

/// Reading an eight-byte little-endian count from the front of a buffer.
pub open spec fn spec_read_u64(b: Seq<u8>) -> Option<(u64, Seq<u8>)> {
    if b.len() >= 8 {
        Some((spec_le64_val(b.subrange(0, 8)), b.subrange(8, b.len() as int)))
    } else {
        None
    }
}

/// An all-zero buffer, the state of freshly allocated storage.
pub open spec fn zero_bytes(n: nat) -> Seq<u8> {
    Seq::new(n, |i: int| 0u8)
}

// ---------------------------------------------------------------------------
// Reading back what was encoded
// ---------------------------------------------------------------------------

/// A length-prefixed field reads back exactly, whatever follows it.
pub proof fn lemma_read_encoded_field(x: Seq<u8>, rest: Seq<u8>)
    requires
        x.len() <= u32::MAX,
    ensures
        spec_read_field(spec_encode_field(x) + rest) == Some((x, rest)),
{
    let b = spec_encode_field(x) + rest;
    lemma_le32_roundtrip(x.len() as u32);
    assert(b.subrange(0, 4) =~= spec_le32(x.len() as u32));
    let n = x.len() as int;
    assert(b.subrange(4, 4 + n) =~= x);
    assert(b.subrange(4 + n, b.len() as int) =~= rest);
}

/// A boolean byte reads back exactly, whatever follows it.
pub proof fn lemma_read_encoded_bool(x: bool, rest: Seq<u8>)
    ensures
        spec_read_bool(spec_encode_bool(x) + rest) == Some((x, rest)),
{
    let b = spec_encode_bool(x) + rest;
    assert(b.subrange(1, b.len() as int) =~= rest);
}

/// A raw fixed-width field reads back exactly, whatever follows it.
pub proof fn lemma_read_encoded_fixed(x: Seq<u8>, rest: Seq<u8>)
    ensures
        spec_read_fixed(x + rest, x.len() as int) == Some((x, rest)),
{
    let b = x + rest;
    assert(b.subrange(0, x.len() as int) =~= x);
    assert(b.subrange(x.len() as int, b.len() as int) =~= rest);
}

/// From an all-zero buffer a length-prefixed field reads back empty.
pub proof fn lemma_read_field_zeros(n: nat)
    requires
        n >= 4,
    ensures
        spec_read_field(zero_bytes(n)) == Some((Seq::<u8>::empty(), zero_bytes((n - 4) as nat))),
{
    let b = zero_bytes(n);
    assert((0u32 | ((0u32) << 8) | ((0u32) << 16) | ((0u32) << 24)) == 0) by (bit_vector);
    assert(spec_le32_val(b.subrange(0, 4)) == 0);
    assert(b.subrange(4, 4) =~= Seq::<u8>::empty());
    assert(b.subrange(4, n as int) =~= zero_bytes((n - 4) as nat));
}

/// From an all-zero buffer the boolean reads back false.
pub proof fn lemma_read_bool_zeros(n: nat)
    requires
        n >= 1,
    ensures
        spec_read_bool(zero_bytes(n)) == Some((false, zero_bytes((n - 1) as nat))),
{
    let b = zero_bytes(n);
    assert(b.subrange(1, n as int) =~= zero_bytes((n - 1) as nat));
}

/// From an all-zero buffer a fixed-width field reads back all zero.
pub proof fn lemma_read_fixed_zeros(n: nat, w: nat)
    requires
        n >= w,
    ensures
        spec_read_fixed(zero_bytes(n), w as int) == Some(
            (zero_bytes(w), zero_bytes((n - w) as nat)),
        ),
{
    let b = zero_bytes(n);
    assert(b.subrange(0, w as int) =~= zero_bytes(w));
    assert(b.subrange(w as int, n as int) =~= zero_bytes((n - w) as nat));
}

/// An encoded 64-bit little-endian count reads back exactly, whatever
/// follows it.
pub proof fn lemma_read_encoded_u64(x: u64, rest: Seq<u8>)
    ensures
        spec_read_u64(spec_le64(x) + rest) == Some((x, rest)),
{
    let b = spec_le64(x) + rest;
    lemma_le64_roundtrip(x);
    assert(b.subrange(0, 8) =~= spec_le64(x));
    assert(b.subrange(8, b.len() as int) =~= rest);
}

/// From an all-zero buffer the 64-bit little-endian count reads back zero.
pub proof fn lemma_read_u64_zeros(n: nat)
    requires
        n >= 8,
    ensures
        spec_read_u64(zero_bytes(n)) == Some((0u64, zero_bytes((n - 8) as nat))),
{
    let b = zero_bytes(n);
    assert((0u64 | ((0u64) << 8) | ((0u64) << 16) | ((0u64) << 24) | ((0u64) << 32) | ((0u64)
        << 40) | ((0u64) << 48) | ((0u64) << 56)) == 0) by (bit_vector);
    assert(spec_le64_val(b.subrange(0, 8)) == 0);
    assert(b.subrange(8, n as int) =~= zero_bytes((n - 8) as nat));
}

// ---------------------------------------------------------------------------
// Executable readers and writers over positions in a buffer
// ---------------------------------------------------------------------------

/// Appends raw bytes to a buffer under construction.
pub fn append_bytes(out: &mut Vec<u8>, b: &Vec<u8>)
    ensures
        final(out)@ == old(out)@ + b@,
{
    let mut i: usize = 0;
    while i < b.len()
        invariant
            i <= b@.len(),
            out@ == old(out)@ + b@.subrange(0, i as int),
        decreases b@.len() - i,
    {
        out.push(b[i]);
        i = i + 1;
        proof {
            assert(old(out)@ + b@.subrange(0, i - 1) + seq![b@[i - 1]] =~= old(out)@ + b@.subrange(
                0,
                i as int,
            ));
        }
    }
    proof {
        assert(out@ =~= old(out)@ + b@);
    }
}

/// Appends a length-prefixed field to a buffer under construction.
pub fn append_field(out: &mut Vec<u8>, b: &Vec<u8>)
    requires
        b@.len() <= u32::MAX,
    ensures
        final(out)@ == old(out)@ + spec_encode_field(b@),
{
    let prefix = le32_bytes(b.len() as u32);
    append_bytes(out, &prefix);
    append_bytes(out, b);
    proof {
        assert(out@ =~= old(out)@ + spec_encode_field(b@));
    }
}

/// Appends the boolean byte to a buffer under construction.
pub fn append_bool(out: &mut Vec<u8>, x: bool)
    ensures
        final(out)@ == old(out)@ + spec_encode_bool(x),
{
    out.push(if x {
        1u8
    } else {
        0u8
    });
    proof {
        assert(out@ =~= old(out)@ + spec_encode_bool(x));
    }
}

/// Reads a length-prefixed field starting at `pos`, returning the field and
/// the position just past it.
pub fn read_field(b: &Vec<u8>, pos: usize) -> (r: Option<(Vec<u8>, usize)>)
    requires
        pos <= b@.len(),
    ensures
        match r {
            Some(p) => {
                &&& spec_read_field(b@.subrange(pos as int, b@.len() as int)) == Some(
                    (p.0@, b@.subrange(p.1 as int, b@.len() as int)),
                )
                &&& pos <= p.1 <= b@.len()
            },
            None => spec_read_field(b@.subrange(pos as int, b@.len() as int)) is None,
        },
{
    let ghost s = b@.subrange(pos as int, b@.len() as int);
    if b.len() - pos < 4 {
        return None;
    }
    let n32 = read_le32(b, pos);
    proof {
        assert(s.subrange(0, 4) =~= b@.subrange(pos as int, pos as int + 4));
    }
    let n = n32 as usize;
    if n > b.len() - pos - 4 {
        return None;
    }
    let start = pos + 4;
    let end = start + n;
    let mut f: Vec<u8> = Vec::new();
    let mut i: usize = start;
    while i < end
        invariant
            start <= i <= end,
            end <= b@.len(),
            f@ == b@.subrange(start as int, i as int),
        decreases end - i,
    {
        f.push(b[i]);
        i = i + 1;
        proof {
            assert(b@.subrange(start as int, i - 1).push(b@[i - 1]) =~= b@.subrange(
                start as int,
                i as int,
            ));
        }
    }
    proof {
        assert(s.subrange(4, 4 + n as int) =~= b@.subrange(start as int, end as int));
        assert(s.subrange(4 + n as int, s.len() as int) =~= b@.subrange(
            end as int,
            b@.len() as int,
        ));
    }
    Some((f, end))
}

/// Reads the boolean byte at `pos`.
pub fn read_bool_at(b: &Vec<u8>, pos: usize) -> (r: Option<(bool, usize)>)
    requires
        pos <= b@.len(),
    ensures
        match r {
            Some(p) => {
                &&& spec_read_bool(b@.subrange(pos as int, b@.len() as int)) == Some(
                    (p.0, b@.subrange(p.1 as int, b@.len() as int)),
                )
                &&& pos < p.1 <= b@.len()
            },
            None => spec_read_bool(b@.subrange(pos as int, b@.len() as int)) is None,
        },
{
    let ghost s = b@.subrange(pos as int, b@.len() as int);
    if b.len() - pos < 1 {
        return None;
    }
    let byte = b[pos];
    if byte != 0 && byte != 1 {
        return None;
    }
    proof {
        assert(s.subrange(1, s.len() as int) =~= b@.subrange(pos as int + 1, b@.len() as int));
    }
    Some((byte == 1, pos + 1))
}

/// Reads a raw fixed-width field of `w` bytes starting at `pos`.
pub fn read_fixed(b: &Vec<u8>, pos: usize, w: usize) -> (r: Option<(Vec<u8>, usize)>)
    requires
        pos <= b@.len(),
    ensures
        match r {
            Some(p) => {
                &&& spec_read_fixed(b@.subrange(pos as int, b@.len() as int), w as int) == Some(
                    (p.0@, b@.subrange(p.1 as int, b@.len() as int)),
                )
                &&& pos <= p.1 <= b@.len()
            },
            None => spec_read_fixed(b@.subrange(pos as int, b@.len() as int), w as int) is None,
        },
{
    let ghost s = b@.subrange(pos as int, b@.len() as int);
    if b.len() - pos < w {
        return None;
    }
    let end = pos + w;
    let mut f: Vec<u8> = Vec::new();
    let mut i: usize = pos;
    while i < end
        invariant
            pos <= i <= end,
            end <= b@.len(),
            f@ == b@.subrange(pos as int, i as int),
        decreases end - i,
    {
        f.push(b[i]);
        i = i + 1;
        proof {
            assert(b@.subrange(pos as int, i - 1).push(b@[i - 1]) =~= b@.subrange(
                pos as int,
                i as int,
            ));
        }
    }
    proof {
        assert(s.subrange(0, w as int) =~= b@.subrange(pos as int, end as int));
        assert(s.subrange(w as int, s.len() as int) =~= b@.subrange(end as int, b@.len() as int));
    }
    Some((f, end))
}

/// Reads the eight-byte little-endian count at `pos`.
pub fn read_le64_at(b: &Vec<u8>, pos: usize) -> (r: Option<(u64, usize)>)
    requires
        pos <= b@.len(),
    ensures
        match r {
            Some(p) => {
                &&& spec_read_u64(b@.subrange(pos as int, b@.len() as int)) == Some(
                    (p.0, b@.subrange(p.1 as int, b@.len() as int)),
                )
                &&& pos <= p.1 <= b@.len()
            },
            None => spec_read_u64(b@.subrange(pos as int, b@.len() as int)) is None,
        },
{
    let ghost s = b@.subrange(pos as int, b@.len() as int);
    if b.len() - pos < 8 {
        return None;
    }
    proof {
        assert(s.subrange(0, 8) =~= b@.subrange(pos as int, pos as int + 8));
        assert(s.subrange(8, s.len() as int) =~= b@.subrange(pos as int + 8, b@.len() as int));
    }
    Some((read_le64(b, pos), pos + 8))
}

// ---------------------------------------------------------------------------
// Small byte-vector utilities
// ---------------------------------------------------------------------------

/// Element-wise comparison of two byte vectors.
pub fn bytes_eq(a: &Vec<u8>, b: &Vec<u8>) -> (r: bool)
    ensures
        r == (a@ == b@),
{
    if a.len() != b.len() {
        return false;
    }
    let mut i: usize = 0;
    while i < a.len()
        invariant
            i <= a@.len(),
            a@.len() == b@.len(),
            forall|j: int| 0 <= j < i ==> a@[j] == b@[j],
        decreases a@.len() - i,
    {
        if a[i] != b[i] {
            return false;
        }
        i = i + 1;
    }
    proof {
        assert(a@ =~= b@);
    }
    true
}

/// A fresh copy of a byte vector.
pub fn copy_bytes(src: &Vec<u8>) -> (r: Vec<u8>)
    ensures
        r@ == src@,
{
    let mut v: Vec<u8> = Vec::new();
    let mut i: usize = 0;
    while i < src.len()
        invariant
            i <= src@.len(),
            v@ == src@.subrange(0, i as int),
        decreases src@.len() - i,
    {
        v.push(src[i]);
        i = i + 1;
        proof {
            assert(src@.subrange(0, i - 1).push(src@[i - 1]) =~= src@.subrange(0, i as int));
        }
    }
    proof {
        assert(v@ =~= src@);
    }
    v
}

/// An all-zero buffer of the given size, the content of freshly allocated
/// storage.
pub fn zero_vec(n: usize) -> (r: Vec<u8>)
    ensures
        r@ == zero_bytes(n as nat),
{
    let mut v: Vec<u8> = Vec::new();
    let mut i: usize = 0;
    while i < n
        invariant
            i <= n,
            v@ == zero_bytes(i as nat),
        decreases n - i,
    {
        v.push(0u8);
        i = i + 1;
        proof {
            assert(zero_bytes((i - 1) as nat).push(0u8) =~= zero_bytes(i as nat));
        }
    }
    v
}

} // verus!
