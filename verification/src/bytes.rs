//! Byte strings and big-endian integers.

use vstd::prelude::*;

verus! {

/// The two bytes of `n`, most significant first.
pub open spec fn be16(n: int) -> Seq<u8> {
    seq![(n / 256) as u8, (n % 256) as u8]
}

/// The four bytes of `n`, most significant first.
pub open spec fn be32(n: int) -> Seq<u8> {
    seq![
        (n / 16777216) as u8,
        (n / 65536 % 256) as u8,
        (n / 256 % 256) as u8,
        (n % 256) as u8,
    ]
}

/// The number that two bytes at `i` write, most significant first.
pub open spec fn be16_at(b: Seq<u8>, i: int) -> int {
    b[i] * 256 + b[i + 1]
}

/// The number that four bytes at `i` write, most significant first.
pub open spec fn be32_at(b: Seq<u8>, i: int) -> int {
    b[i] * 16777216 + b[i + 1] * 65536 + b[i + 2] * 256 + b[i + 3]
}

/// The number that the bytes of `b` write, most significant first.
pub open spec fn be_value(b: Seq<u8>) -> int
    decreases b.len(),
{
    if b.len() == 0 {
        0
    } else {
        be_value(b.drop_last()) * 256 + b.last()
    }
}

/// Appends `s` to `v`.
pub fn extend(v: &mut Vec<u8>, s: &[u8])
    ensures
        final(v)@ == old(v)@ + s@,
{
    v.extend_from_slice(s);
    assert(v@ =~= old(v)@ + s@);
}

/// A copy of `s[from..to]`.
pub fn slice_of(s: &[u8], from: usize, to: usize) -> (r: Vec<u8>)
    requires
        from <= to <= s@.len(),
    ensures
        r@ == s@.subrange(from as int, to as int),
{
    let mut out: Vec<u8> = Vec::new();
    let mut i: usize = from;
    while i < to
        invariant
            from <= i <= to <= s@.len(),
            out@ == s@.subrange(from as int, i as int),
        decreases to - i,
    {
        out.push(s[i]);
        assert(s@.subrange(from as int, i + 1) =~= s@.subrange(from as int, i as int).push(
            s@[i as int],
        ));
        i = i + 1;
    }
    out
}

/// Appends the two bytes of `n`.
pub fn push_be16(v: &mut Vec<u8>, n: u16)
    ensures
        final(v)@ == old(v)@ + be16(n as int),
{
    v.push((n / 256) as u8);
    v.push((n % 256) as u8);
    assert(v@ =~= old(v)@ + be16(n as int));
}

/// Appends the four bytes of `n`.
pub fn push_be32(v: &mut Vec<u8>, n: u32)
    ensures
        final(v)@ == old(v)@ + be32(n as int),
{
    v.push((n / 16777216) as u8);
    v.push((n / 65536 % 256) as u8);
    v.push((n / 256 % 256) as u8);
    v.push((n % 256) as u8);
    assert(v@ =~= old(v)@ + be32(n as int));
}

/// The number that two bytes at `i` write.
pub fn read_be16(b: &[u8], i: usize) -> (n: u16)
    requires
        i + 2 <= b@.len(),
    ensures
        n == be16_at(b@, i as int),
{
    let len: usize = b.len();
    b[i] as u16 * 256 + b[i + 1] as u16
}

/// The number that four bytes at `i` write.
pub fn read_be32(b: &[u8], i: usize) -> (n: u32)
    requires
        i + 4 <= b@.len(),
    ensures
        n == be32_at(b@, i as int),
{
    let len: usize = b.len();
    b[i] as u32 * 16777216 + b[i + 1] as u32 * 65536 + b[i + 2] as u32 * 256 + b[i + 3] as u32
}

/// Reading two bytes gives back the number that they write.
pub proof fn be16_reads_back(b: Seq<u8>, i: int, n: int)
    requires
        0 <= n < 65536,
        0 <= i,
        i + 2 <= b.len(),
        b.subrange(i, i + 2) == be16(n),
    ensures
        be16_at(b, i) == n,
{
    let s = b.subrange(i, i + 2);
    assert(s[0] == b[i]);
    assert(s[1] == b[i + 1]);
}

/// Reading four bytes gives back the number that they write.
pub proof fn be32_reads_back(b: Seq<u8>, i: int, n: int)
    requires
        0 <= n < 0x1_0000_0000,
        0 <= i,
        i + 4 <= b.len(),
        b.subrange(i, i + 4) == be32(n),
    ensures
        be32_at(b, i) == n,
{
    let s = b.subrange(i, i + 4);
    assert(s[0] == b[i]);
    assert(s[1] == b[i + 1]);
    assert(s[2] == b[i + 2]);
    assert(s[3] == b[i + 3]);
}

/// Whether two byte strings are equal.
pub fn same_bytes(a: &[u8], b: &[u8]) -> (r: bool)
    ensures
        r == (a@ == b@),
{
    if a.len() != b.len() {
        return false;
    }
    let mut i: usize = 0;
    while i < a.len()
        invariant
            i <= a@.len() == b@.len(),
            forall|j: int| 0 <= j < i ==> a@[j] == b@[j],
        decreases a@.len() - i,
    {
        if a[i] != b[i] {
            return false;
        }
        i = i + 1;
    }
    assert(a@ =~= b@);
    true
}

// ---------------------------------------------------------------------------
// Laws

/// Numbers that were written are read back, most significant byte first.
pub proof fn written_numbers_are_read(
    a: &mut Vec<u8>,
    n: u16,
    b: &[u8],
    i: usize,
    r: u16,
    c: &mut Vec<u8>,
    m: u32,
    d: &[u8],
    j: usize,
    s: u32,
)
    requires
        call_ensures(push_be16, (a, n), ()),
        i == old(a)@.len(),
        b@ == final(a)@,
        i + 2 <= b@.len(),
        call_ensures(read_be16, (b, i), r),
        call_ensures(push_be32, (c, m), ()),
        j == old(c)@.len(),
        d@ == final(c)@,
        j + 4 <= d@.len(),
        call_ensures(read_be32, (d, j), s),
    ensures
        final(a)@.len() == old(a)@.len() + 2,
        final(a)@.take(i as int) == old(a)@,
        r == n,
        b@[i as int] == n / 256,
        final(c)@.len() == old(c)@.len() + 4,
        s == m,
{
    assert(b@.subrange(i as int, i + 2) =~= be16(n as int));
    be16_reads_back(b@, i as int, n as int);
    assert(final(a)@.take(i as int) =~= old(a)@);
    assert(d@.subrange(j as int, j + 4) =~= be32(m as int));
    be32_reads_back(d@, j as int, m as int);
}

/// A part of some bytes is those between its ends, and what is added stands behind.
pub proof fn parts_are_cut_and_added(
    s: &[u8],
    from: usize,
    to: usize,
    r: Vec<u8>,
    v: &mut Vec<u8>,
    k: int,
    same: bool,
    other: &[u8],
)
    requires
        from <= to <= s@.len(),
        call_ensures(slice_of, (s, from, to), r),
        call_ensures(extend, (v, s), ()),
        0 <= k < to - from,
        call_ensures(same_bytes, (s, other), same),
    ensures
        r@.len() == to - from,
        r@[k] == s@[from + k],
        final(v)@.len() == old(v)@.len() + s@.len(),
        final(v)@[old(v)@.len() + from + k] == s@[from + k],
        same ==> s@ == other@,
        s@ == other@ ==> same,
{
}

} // verus!
