//! Byte-level serialization of the integers that a transaction body holds:
//! fixed-width little-endian integers and the variable-length "compact size"
//! that prefixes a script.

use vstd::prelude::*;

verus! {

/// The `width` low-order bytes of `x`, least significant first.
pub open spec fn le_bytes(x: int, width: nat) -> Seq<u8>
    decreases width,
{
    if width == 0 {
        Seq::<u8>::empty()
    } else {
        seq![(x % 256) as u8] + le_bytes(x / 256, (width - 1) as nat)
    }
}

/// The number that a little-endian byte string stands for.
pub open spec fn le_value(bytes: Seq<u8>) -> int
    decreases bytes.len(),
{
    if bytes.len() == 0 {
        0
    } else {
        bytes[0] as int + 256 * le_value(bytes.subrange(1, bytes.len() as int))
    }
}

/// 256 to the power `width`.
pub open spec fn radix_pow(width: nat) -> int
    decreases width,
{
    if width == 0 {
        1
    } else {
        256 * radix_pow((width - 1) as nat)
    }
}

/// The 32-bit two's complement pattern of a signed integer, as a number.
pub open spec fn twos_complement(v: i32) -> int {
    if v >= 0 {
        v as int
    } else {
        v as int + 0x1_0000_0000
    }
}

/// The compact-size encoding of a length: one byte below `0xFD`, else a
/// marker byte followed by the length in 2, 4 or 8 little-endian bytes,
/// whichever is the shortest that holds it.
pub open spec fn compact_size(n: int) -> Seq<u8> {
    if n <= 0xFC {
        seq![n as u8]
    } else if n <= 0xFFFF {
        seq![0xFDu8] + le_bytes(n, 2)
    } else if n <= 0xFFFF_FFFF {
        seq![0xFEu8] + le_bytes(n, 4)
    } else {
        seq![0xFFu8] + le_bytes(n, 8)
    }
}

/// `le_bytes` yields exactly `width` bytes.
pub proof fn lemma_le_bytes_len(x: int, width: nat)
    ensures
        le_bytes(x, width).len() == width,
    decreases width,
{
    if width > 0 {
        lemma_le_bytes_len(x / 256, (width - 1) as nat);
    }
}

/// Decoding undoes encoding for every number that fits the width.
pub proof fn lemma_le_round_trip(x: int, width: nat)
    requires
        0 <= x < radix_pow(width),
    ensures
        le_value(le_bytes(x, width)) == x,
    decreases width,
{
    if width > 0 {
        let rest = le_bytes(x / 256, (width - 1) as nat);
        let all = le_bytes(x, width);
        lemma_le_bytes_len(x / 256, (width - 1) as nat);
        assert(all.subrange(1, all.len() as int) =~= rest);
        assert(x / 256 < radix_pow((width - 1) as nat)) by (nonlinear_arith)
            requires
                0 <= x < 256 * radix_pow((width - 1) as nat),
        ;
        lemma_le_round_trip(x / 256, (width - 1) as nat);
        assert(all[0] == (x % 256) as u8);
        assert(x == (x % 256) + 256 * (x / 256)) by (nonlinear_arith);
    }
}

/// Two numbers that fit the width and encode alike are the same number.
pub proof fn lemma_le_bytes_injective(x: int, y: int, width: nat)
    requires
        0 <= x < radix_pow(width),
        0 <= y < radix_pow(width),
        le_bytes(x, width) == le_bytes(y, width),
    ensures
        x == y,
{
    lemma_le_round_trip(x, width);
    lemma_le_round_trip(y, width);
}

/// The values of `radix_pow` at the widths that the encoding uses.
pub proof fn lemma_radix_pow_values()
    ensures
        radix_pow(1) == 0x100,
        radix_pow(2) == 0x1_0000,
        radix_pow(4) == 0x1_0000_0000,
        radix_pow(8) == 0x1_0000_0000_0000_0000,
{
    reveal_with_fuel(radix_pow, 9);
}

/// Two concatenations that agree, with first parts of one length, agree
/// part by part.
pub proof fn lemma_concat_split(p: Seq<u8>, s: Seq<u8>, q: Seq<u8>, t: Seq<u8>)
    requires
        p.len() == q.len(),
        p + s == q + t,
    ensures
        p == q,
        s == t,
{
    let whole = p + s;
    assert(p =~= whole.subrange(0, p.len() as int));
    assert(q =~= (q + t).subrange(0, q.len() as int));
    assert(s =~= whole.subrange(p.len() as int, whole.len() as int));
    assert(t =~= (q + t).subrange(q.len() as int, (q + t).len() as int));
}

/// The number of bytes that the compact size of `n` takes.
pub open spec fn compact_size_len(n: int) -> nat {
    if n <= 0xFC {
        1
    } else if n <= 0xFFFF {
        3
    } else if n <= 0xFFFF_FFFF {
        5
    } else {
        9
    }
}

/// The length of a compact size, and its first byte: the number itself
/// below `0xFD`, else the marker of its width.
pub proof fn lemma_compact_size_shape(n: int)
    requires
        0 <= n <= u64::MAX,
    ensures
        compact_size(n).len() == compact_size_len(n),
        compact_size(n)[0] == (if n <= 0xFC {
            n
        } else if n <= 0xFFFF {
            0xFD
        } else if n <= 0xFFFF_FFFF {
            0xFE
        } else {
            0xFF
        }),
{
    lemma_le_bytes_len(n, 2);
    lemma_le_bytes_len(n, 4);
    lemma_le_bytes_len(n, 8);
}

/// No compact size is the beginning of another: where two byte strings
/// that each start with a compact size agree, the two lengths agree, and so
/// does what follows them.
pub proof fn lemma_compact_size_prefix_free(m: int, n: int, s: Seq<u8>, t: Seq<u8>)
    requires
        0 <= m <= u64::MAX,
        0 <= n <= u64::MAX,
        compact_size(m) + s == compact_size(n) + t,
    ensures
        m == n,
        s == t,
{
    let a = compact_size(m) + s;
    let b = compact_size(n) + t;
    lemma_compact_size_shape(m);
    lemma_compact_size_shape(n);
    lemma_radix_pow_values();
    assert(a[0] == compact_size(m)[0]);
    assert(b[0] == compact_size(n)[0]);
    if m <= 0xFC {
    } else if m <= 0xFFFF {
        lemma_le_bytes_len(m, 2);
        lemma_le_bytes_len(n, 2);
        assert(a.subrange(1, 3) =~= le_bytes(m, 2));
        assert(b.subrange(1, 3) =~= le_bytes(n, 2));
        lemma_le_bytes_injective(m, n, 2);
    } else if m <= 0xFFFF_FFFF {
        lemma_le_bytes_len(m, 4);
        lemma_le_bytes_len(n, 4);
        assert(a.subrange(1, 5) =~= le_bytes(m, 4));
        assert(b.subrange(1, 5) =~= le_bytes(n, 4));
        lemma_le_bytes_injective(m, n, 4);
    } else {
        lemma_le_bytes_len(m, 8);
        lemma_le_bytes_len(n, 8);
        assert(a.subrange(1, 9) =~= le_bytes(m, 8));
        assert(b.subrange(1, 9) =~= le_bytes(n, 8));
        lemma_le_bytes_injective(m, n, 8);
    }
    lemma_concat_split(compact_size(m), s, compact_size(n), t);
}

/// Appends the `width` low-order bytes of `x` to `buf`, least significant
/// first.
pub fn push_le(buf: &mut Vec<u8>, x: u64, width: usize)
    ensures
        final(buf)@ == old(buf)@ + le_bytes(x as int, width as nat),
{
    let mut rest: u64 = x;
    let mut done: usize = 0;
    while done < width
        invariant
            done <= width,
            buf@ + le_bytes(rest as int, (width - done) as nat) == old(buf)@ + le_bytes(
                x as int,
                width as nat,
            ),
        decreases width - done,
    {
        let ghost before = buf@;
        let low: u8 = (rest % 256) as u8;
        buf.push(low);
        proof {
            let tail = le_bytes(rest as int / 256, (width - done - 1) as nat);
            assert(le_bytes(rest as int, (width - done) as nat) == seq![low] + tail);
            assert(before + (seq![low] + tail) =~= before.push(low) + tail);
        }
        rest = rest / 256;
        done = done + 1;
    }
    proof {
        assert(buf@ + Seq::<u8>::empty() =~= buf@);
    }
}

/// Appends the compact-size encoding of `n` to `buf`.
pub fn push_compact_size(buf: &mut Vec<u8>, n: u64)
    ensures
        final(buf)@ == old(buf)@ + compact_size(n as int),
{
    let ghost before = buf@;
    if n <= 0xFC {
        buf.push(n as u8);
        assert(buf@ =~= before + compact_size(n as int));
    } else if n <= 0xFFFF {
        buf.push(0xFDu8);
        push_le(buf, n, 2);
        assert(buf@ =~= before + compact_size(n as int));
    } else if n <= 0xFFFF_FFFF {
        buf.push(0xFEu8);
        push_le(buf, n, 4);
        assert(buf@ =~= before + compact_size(n as int));
    } else {
        buf.push(0xFFu8);
        push_le(buf, n, 8);
        assert(buf@ =~= before + compact_size(n as int));
    }
}

/// A copy of `bytes`.
pub fn copy_bytes(bytes: &Vec<u8>) -> (copy: Vec<u8>)
    ensures
        copy@ == bytes@,
{
    let mut copy: Vec<u8> = Vec::new();
    let mut i: usize = 0;
    while i < bytes.len()
        invariant
            i <= bytes@.len(),
            copy@ == bytes@.take(i as int),
        decreases bytes@.len() - i,
    {
        copy.push(bytes[i]);
        assert(copy@ =~= bytes@.take(i + 1));
        i = i + 1;
    }
    assert(bytes@.take(i as int) =~= bytes@);
    copy
}

/// Whether two byte strings are the same.
pub fn same_bytes(a: &Vec<u8>, b: &Vec<u8>) -> (same: bool)
    ensures
        same == (a@ == b@),
{
    if a.len() != b.len() {
        return false;
    }
    let mut i: usize = 0;
    while i < a.len()
        invariant
            a@.len() == b@.len(),
            i <= a@.len(),
            a@.take(i as int) == b@.take(i as int),
        decreases a@.len() - i,
    {
        if a[i] != b[i] {
            return false;
        }
        assert(a@.take(i + 1) =~= a@.take(i as int).push(a@[i as int]));
        assert(b@.take(i + 1) =~= b@.take(i as int).push(b@[i as int]));
        i = i + 1;
    }
    assert(a@.take(i as int) =~= a@);
    assert(b@.take(i as int) =~= b@);
    true
}

} // verus!
