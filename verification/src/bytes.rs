//! Comparisons and big-endian codecs on byte strings.

use vstd::prelude::*;

verus! {

/// Lexicographic "less than" on byte strings, the order of `[u8]` in std.
pub open spec fn lex_lt(a: Seq<u8>, b: Seq<u8>) -> bool
    decreases a.len(),
{
    if b.len() == 0 {
        false
    } else if a.len() == 0 {
        true
    } else if a[0] != b[0] {
        a[0] < b[0]
    } else {
        lex_lt(a.skip(1), b.skip(1))
    }
}

/// Two byte strings that agree on their first `k` bytes compare as their tails do.
pub proof fn lemma_lex_lt_common_prefix(a: Seq<u8>, b: Seq<u8>, k: int)
    requires
        0 <= k <= a.len(),
        k <= b.len(),
        forall|j: int| 0 <= j < k ==> a[j] == b[j],
    ensures
        lex_lt(a, b) == lex_lt(a.skip(k), b.skip(k)),
    decreases k,
{
    if k == 0 {
        assert(a.skip(0) =~= a);
        assert(b.skip(0) =~= b);
    } else {
        lemma_lex_lt_common_prefix(a.skip(1), b.skip(1), k - 1);
        assert(a.skip(1).skip(k - 1) =~= a.skip(k));
        assert(b.skip(1).skip(k - 1) =~= b.skip(k));
    }
}

/// No byte string is below itself.
pub proof fn lemma_lex_lt_irreflexive(a: Seq<u8>)
    ensures
        !lex_lt(a, a),
    decreases a.len(),
{
    if a.len() > 0 {
        lemma_lex_lt_irreflexive(a.skip(1));
    }
}

/// The order is transitive.
pub proof fn lemma_lex_lt_transitive(a: Seq<u8>, b: Seq<u8>, c: Seq<u8>)
    requires
        lex_lt(a, b),
        lex_lt(b, c),
    ensures
        lex_lt(a, c),
    decreases a.len(),
{
    if a.len() > 0 && a[0] == b[0] && b[0] == c[0] {
        lemma_lex_lt_transitive(a.skip(1), b.skip(1), c.skip(1));
    }
}

/// Two strings of one length are equal or ordered one way.
pub proof fn lemma_lex_lt_total(a: Seq<u8>, b: Seq<u8>)
    requires
        a.len() == b.len(),
    ensures
        a == b || lex_lt(a, b) || lex_lt(b, a),
        !(lex_lt(a, b) && lex_lt(b, a)),
    decreases a.len(),
{
    if a.len() == 0 {
        assert(a =~= b);
    } else if a[0] == b[0] {
        lemma_lex_lt_total(a.skip(1), b.skip(1));
        if a.skip(1) == b.skip(1) {
            assert forall|i: int| 0 <= i < a.len() implies a[i] == b[i] by {
                if i > 0 {
                    assert(a.skip(1)[i - 1] == b.skip(1)[i - 1]);
                }
            }
            assert(a =~= b);
        }
    }
}

/// Whether two byte strings hold the same bytes.
pub fn bytes_eq(a: &[u8], b: &[u8]) -> (r: bool)
    ensures
        r == (a@ == b@),
{
    if a.len() != b.len() {
        return false;
    }
    let mut i: usize = 0;
    while i < a.len()
        invariant
            a@.len() == b@.len(),
            0 <= i <= a@.len(),
            forall|j: int| 0 <= j < i ==> a@[j] == b@[j],
        decreases a@.len() - i,
    {
        if a[i] != b[i] {
            return false;
        }
        i += 1;
    }
    proof {
        assert(a@ =~= b@);
    }
    true
}

/// Whether `a` comes before `b` in lexicographic order.
pub fn bytes_lt(a: &[u8], b: &[u8]) -> (r: bool)
    ensures
        r == lex_lt(a@, b@),
{
    let mut i: usize = 0;
    while i < a.len() && i < b.len()
        invariant
            0 <= i <= a@.len(),
            i <= b@.len(),
            forall|j: int| 0 <= j < i ==> a@[j] == b@[j],
        decreases a@.len() - i,
    {
        if a[i] != b[i] {
            proof {
                lemma_lex_lt_common_prefix(a@, b@, i as int);
            }
            return a[i] < b[i];
        }
        i += 1;
    }
    proof {
        lemma_lex_lt_common_prefix(a@, b@, i as int);
    }
    i < b.len()
}

/// 256 to the power `n`: how many values `n` bytes can hold.
pub open spec fn radix(n: nat) -> nat
    decreases n,
{
    if n == 0 {
        1
    } else {
        256 * radix((n - 1) as nat)
    }
}

/// The number that a byte string spells in big-endian order.
pub open spec fn be_value(bytes: Seq<u8>) -> nat
    decreases bytes.len(),
{
    if bytes.len() == 0 {
        0
    } else {
        be_value(bytes.drop_last()) * 256 + bytes.last() as nat
    }
}

/// The `n` low bytes of `v` in big-endian order.
pub open spec fn be_bytes(v: nat, n: nat) -> Seq<u8>
    decreases n,
{
    if n == 0 {
        Seq::empty()
    } else {
        be_bytes(v / 256, (n - 1) as nat).push((v % 256) as u8)
    }
}

/// The signed number that the 128-bit pattern `v` stands for in two's complement.
pub open spec fn i128_of(v: nat) -> int {
    if v < 0x8000_0000_0000_0000_0000_0000_0000_0000 {
        v as int
    } else {
        v - 0x1_0000_0000_0000_0000_0000_0000_0000_0000
    }
}

/// The 128-bit pattern of a signed number in two's complement.
pub open spec fn u128_of(x: int) -> nat {
    if x >= 0 {
        x as nat
    } else {
        (x + 0x1_0000_0000_0000_0000_0000_0000_0000_0000) as nat
    }
}

/// More bytes hold more values.
pub proof fn lemma_radix_monotonic(m: nat, n: nat)
    requires
        m <= n,
    ensures
        radix(m) <= radix(n),
        radix(m) > 0,
    decreases n,
{
    if m < n {
        lemma_radix_monotonic(m, (n - 1) as nat);
    } else if m > 0 {
        lemma_radix_monotonic((m - 1) as nat, (n - 1) as nat);
    }
}

/// The values of `radix` at the widths of the machine integers.
pub proof fn lemma_radix_values()
    ensures
        radix(1) == 0x100,
        radix(4) == 0x1_0000_0000,
        radix(8) == 0x1_0000_0000_0000_0000,
        radix(15) == 0x100_0000_0000_0000_0000_0000_0000_0000,
        radix(16) == 0x1_0000_0000_0000_0000_0000_0000_0000_0000,
{
    reveal_with_fuel(radix, 17);
}

/// The encoding of a number has the length asked for.
pub proof fn lemma_be_bytes_len(v: nat, n: nat)
    ensures
        be_bytes(v, n).len() == n,
    decreases n,
{
    if n > 0 {
        lemma_be_bytes_len(v / 256, (n - 1) as nat);
    }
}

/// Decoding what was encoded gives the number back, if it fits.
pub proof fn lemma_be_round_trip(v: nat, n: nat)
    requires
        v < radix(n),
    ensures
        be_value(be_bytes(v, n)) == v,
    decreases n,
{
    if n > 0 {
        lemma_be_round_trip(v / 256, (n - 1) as nat);
        assert(be_bytes(v, n).drop_last() =~= be_bytes(v / 256, (n - 1) as nat));
    }
}

/// Reads a big-endian number of at most 16 bytes.
pub fn be_decode(bytes: &[u8]) -> (r: u128)
    requires
        bytes@.len() <= 16,
    ensures
        r == be_value(bytes@),
        r < radix(bytes@.len()),
{
    let mut acc: u128 = 0;
    let mut i: usize = 0;
    while i < bytes.len()
        invariant
            0 <= i <= bytes@.len() <= 16,
            acc == be_value(bytes@.take(i as int)),
            acc < radix(i as nat),
        decreases bytes@.len() - i,
    {
        proof {
            lemma_radix_monotonic(i as nat, 15);
            lemma_radix_values();
            assert(bytes@.take(i + 1).drop_last() =~= bytes@.take(i as int));
        }
        acc = acc * 256 + bytes[i] as u128;
        i += 1;
    }
    proof {
        assert(bytes@.take(i as int) =~= bytes@);
    }
    acc
}

/// Reads a big-endian `u32`.
pub fn be_u32(bytes: &[u8]) -> (r: u32)
    requires
        bytes@.len() == 4,
    ensures
        r == be_value(bytes@),
{
    proof {
        lemma_radix_values();
    }
    be_decode(bytes) as u32
}

/// Reads a big-endian `u64`.
pub fn be_u64(bytes: &[u8]) -> (r: u64)
    requires
        bytes@.len() == 8,
    ensures
        r == be_value(bytes@),
{
    proof {
        lemma_radix_values();
    }
    be_decode(bytes) as u64
}

/// Reads a big-endian `i128` in two's complement.
pub fn be_i128(bytes: &[u8]) -> (r: i128)
    requires
        bytes@.len() == 16,
    ensures
        r == i128_of(be_value(bytes@)),
{
    let v: u128 = be_decode(bytes);
    if v < 0x8000_0000_0000_0000_0000_0000_0000_0000 {
        v as i128
    } else {
        -((u128::MAX - v) as i128) - 1
    }
}

/// The bit pattern of an `i128` in two's complement.
pub fn i128_bits(x: i128) -> (r: u128)
    ensures
        r == u128_of(x as int),
        i128_of(r as nat) == x,
{
    if x >= 0 {
        x as u128
    } else {
        u128::MAX - ((-(x + 1)) as u128)
    }
}

/// Appends the `n` low bytes of `v` in big-endian order.
pub fn push_be(out: &mut Vec<u8>, v: u128, n: usize)
    ensures
        final(out)@ == old(out)@ + be_bytes(v as nat, n as nat),
    decreases n,
{
    if n > 0 {
        push_be(out, v / 256, n - 1);
        out.push((v % 256) as u8);
        proof {
            assert(final(out)@ =~= old(out)@ + be_bytes(v as nat, n as nat));
        }
    } else {
        proof {
            assert(out@ =~= old(out)@ + be_bytes(v as nat, n as nat));
        }
    }
}

/// Appends a copy of `data`.
pub fn push_all(out: &mut Vec<u8>, data: &[u8])
    ensures
        final(out)@ == old(out)@ + data@,
{
    let mut i: usize = 0;
    while i < data.len()
        invariant
            0 <= i <= data@.len(),
            out@ == old(out)@ + data@.take(i as int),
        decreases data@.len() - i,
    {
        out.push(data[i]);
        proof {
            assert(data@.take(i + 1) =~= data@.take(i as int).push(data@[i as int]));
            assert(out@ =~= old(out)@ + data@.take(i + 1));
        }
        i += 1;
    }
    proof {
        assert(data@.take(i as int) =~= data@);
    }
}

/// Appends `count` copies of `byte`.
pub fn push_repeat(out: &mut Vec<u8>, byte: u8, count: usize)
    ensures
        final(out)@ == old(out)@ + Seq::new(count as nat, |i: int| byte),
{
    let mut i: usize = 0;
    while i < count
        invariant
            0 <= i <= count,
            out@ == old(out)@ + Seq::new(i as nat, |j: int| byte),
        decreases count - i,
    {
        out.push(byte);
        proof {
            assert(out@ =~= old(out)@ + Seq::new((i + 1) as nat, |j: int| byte));
        }
        i += 1;
    }
}

/// The 20 bytes of `data` from `start` on.
pub fn array20(data: &[u8], start: usize) -> (r: [u8; 20])
    requires
        start + 20 <= data@.len(),
    ensures
        r@ == data@.subrange(start as int, start + 20),
{
    let mut r = [0u8; 20];
    let len: usize = data.len();
    let mut i: usize = 0;
    while i < 20
        invariant
            0 <= i <= 20,
            start + 20 <= data@.len() == len,
            forall|j: int| 0 <= j < i ==> r@[j] == data@[start + j],
        decreases 20 - i,
    {
        r[i] = data[start + i];
        i += 1;
    }
    proof {
        assert(r@ =~= data@.subrange(start as int, start + 20));
    }
    r
}

/// The 32 bytes of `data` from `start` on.
pub fn array32(data: &[u8], start: usize) -> (r: [u8; 32])
    requires
        start + 32 <= data@.len(),
    ensures
        r@ == data@.subrange(start as int, start + 32),
{
    let mut r = [0u8; 32];
    let len: usize = data.len();
    let mut i: usize = 0;
    while i < 32
        invariant
            0 <= i <= 32,
            start + 32 <= data@.len() == len,
            forall|j: int| 0 <= j < i ==> r@[j] == data@[start + j],
        decreases 32 - i,
    {
        r[i] = data[start + i];
        i += 1;
    }
    proof {
        assert(r@ =~= data@.subrange(start as int, start + 32));
    }
    r
}

} // verus!
