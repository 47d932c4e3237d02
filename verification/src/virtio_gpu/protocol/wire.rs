//! Little-endian field encoding shared by every wire structure.

use vstd::bytes::*;
use vstd::prelude::*;

verus! {

/// Little-endian bytes of a 16-bit value.
pub open spec fn le16(x: u16) -> Seq<u8> {
    spec_u16_to_le_bytes(x)
}

/// Little-endian bytes of a 32-bit value.
pub open spec fn le32(x: u32) -> Seq<u8> {
    spec_u32_to_le_bytes(x)
}

/// Little-endian bytes of a 64-bit value.
pub open spec fn le64(x: u64) -> Seq<u8> {
    spec_u64_to_le_bytes(x)
}

/// The 16-bit little-endian value stored at `off`.
pub open spec fn u16_at(s: Seq<u8>, off: int) -> u16 {
    spec_u16_from_le_bytes(s.subrange(off, off + 2))
}

/// The 32-bit little-endian value stored at `off`.
pub open spec fn u32_at(s: Seq<u8>, off: int) -> u32 {
    spec_u32_from_le_bytes(s.subrange(off, off + 4))
}

/// The 64-bit little-endian value stored at `off`.
pub open spec fn u64_at(s: Seq<u8>, off: int) -> u64 {
    spec_u64_from_le_bytes(s.subrange(off, off + 8))
}

/// Encoding and decoding of integers are inverse to each other, and the
/// encodings have fixed lengths.
pub proof fn lemma_le_codec()
    ensures
        forall|x: u16| #[trigger] le16(x).len() == 2 && spec_u16_from_le_bytes(le16(x)) == x,
        forall|x: u32| #[trigger] le32(x).len() == 4 && spec_u32_from_le_bytes(le32(x)) == x,
        forall|x: u64| #[trigger] le64(x).len() == 8 && spec_u64_from_le_bytes(le64(x)) == x,
        forall|s: Seq<u8>| s.len() == 2 ==> #[trigger] le16(spec_u16_from_le_bytes(s)) == s,
        forall|s: Seq<u8>| s.len() == 4 ==> #[trigger] le32(spec_u32_from_le_bytes(s)) == s,
        forall|s: Seq<u8>| s.len() == 8 ==> #[trigger] le64(spec_u64_from_le_bytes(s)) == s,
{
    lemma_auto_spec_u16_to_from_le_bytes();
    lemma_auto_spec_u32_to_from_le_bytes();
    lemma_auto_spec_u64_to_from_le_bytes();
    assert forall|x: u16| #[trigger] le16(x).len() == 2 && spec_u16_from_le_bytes(le16(x)) == x by {
        assert(spec_u16_to_le_bytes(x).len() == 2);
    }
    assert forall|x: u32| #[trigger] le32(x).len() == 4 && spec_u32_from_le_bytes(le32(x)) == x by {
        assert(spec_u32_to_le_bytes(x).len() == 4);
    }
    assert forall|x: u64| #[trigger] le64(x).len() == 8 && spec_u64_from_le_bytes(le64(x)) == x by {
        assert(spec_u64_to_le_bytes(x).len() == 8);
    }
}

/// A field whose bytes are the encoding of `x` reads back as `x`.
pub proof fn lemma_u32_field(s: Seq<u8>, off: int, x: u32)
    requires
        0 <= off,
        off + 4 <= s.len(),
        s.subrange(off, off + 4) == le32(x),
    ensures
        u32_at(s, off) == x,
{
    lemma_auto_spec_u32_to_from_le_bytes();
    assert(spec_u32_to_le_bytes(x).len() == 4);
}

/// A field whose bytes are the encoding of `x` reads back as `x`.
pub proof fn lemma_u64_field(s: Seq<u8>, off: int, x: u64)
    requires
        0 <= off,
        off + 8 <= s.len(),
        s.subrange(off, off + 8) == le64(x),
    ensures
        u64_at(s, off) == x,
{
    lemma_auto_spec_u64_to_from_le_bytes();
    assert(spec_u64_to_le_bytes(x).len() == 8);
}


/// The little-endian encoding of consecutive 32-bit words.
pub open spec fn words(v: Seq<u32>) -> Seq<u8>
    decreases v.len(),
{
    if v.len() == 0 {
        Seq::<u8>::empty()
    } else {
        words(v.drop_last()) + le32(v.last())
    }
}

/// The `n` consecutive 32-bit little-endian words stored from `off`.
pub open spec fn u32s_at(s: Seq<u8>, off: int, n: nat) -> Seq<u32> {
    Seq::new(n, |i: int| u32_at(s, off + 4 * i))
}

/// The encoding of up to four words, spelled out.
pub proof fn lemma_words_small(a: u32, b: u32, c: u32, d: u32)
    ensures
        words(seq![a]) == le32(a),
        words(seq![a, b]) == le32(a) + le32(b),
        words(seq![a, b, c]) == le32(a) + le32(b) + le32(c),
        words(seq![a, b, c, d]) == le32(a) + le32(b) + le32(c) + le32(d),
{
    assert(seq![a].drop_last() =~= Seq::<u32>::empty());
    assert(words(Seq::<u32>::empty()) =~= Seq::<u8>::empty());
    assert(words(seq![a]) =~= le32(a));
    assert(seq![a, b].drop_last() =~= seq![a]);
    assert(words(seq![a, b]) =~= le32(a) + le32(b));
    assert(seq![a, b, c].drop_last() =~= seq![a, b]);
    assert(words(seq![a, b, c]) =~= le32(a) + le32(b) + le32(c));
    assert(seq![a, b, c, d].drop_last() =~= seq![a, b, c]);
    assert(words(seq![a, b, c, d]) =~= le32(a) + le32(b) + le32(c) + le32(d));
}

/// `words` has four bytes per word, and word `i` sits at byte `4 * i`.
pub proof fn lemma_words(v: Seq<u32>)
    ensures
        words(v).len() == 4 * v.len(),
        forall|i: int| 0 <= i < v.len() ==> #[trigger] words(v).subrange(4 * i, 4 * i + 4) == le32(v[i]),
    decreases v.len(),
{
    lemma_le_codec();
    if v.len() > 0 {
        let w = v.drop_last();
        lemma_words(w);
        let a = words(w);
        let b = le32(v.last());
        assert(words(v) == a + b);
        assert forall|i: int| 0 <= i < v.len() implies #[trigger] words(v).subrange(4 * i, 4 * i + 4) == le32(v[i]) by {
            if i < v.len() - 1 {
                assert(a.subrange(4 * i, 4 * i + 4) == le32(w[i]));
                assert((a + b).subrange(4 * i, 4 * i + 4) =~= a.subrange(4 * i, 4 * i + 4));
            } else {
                assert((a + b).subrange(4 * i, 4 * i + 4) =~= b);
            }
        }
    }
}

/// Reading the words back from an encoding placed after `pre` gives the words.
pub proof fn lemma_u32s_at_words(pre: Seq<u8>, v: Seq<u32>, post: Seq<u8>)
    ensures
        u32s_at(pre + words(v) + post, pre.len() as int, v.len()) == v,
        (pre + words(v) + post).len() == pre.len() + 4 * v.len() + post.len(),
{
    lemma_words(v);
    let s = pre + words(v) + post;
    let r = u32s_at(s, pre.len() as int, v.len());
    assert forall|i: int| 0 <= i < v.len() implies r[i] == v[i] by {
        let off = pre.len() + 4 * i;
        assert(words(v).subrange(4 * i, 4 * i + 4) == le32(v[i]));
        assert(s.subrange(off, off + 4) =~= words(v).subrange(4 * i, 4 * i + 4));
        lemma_u32_field(s, off, v[i]);
    }
    assert(r =~= v);
}

/// Reading the words back from an encoding at the end of a sequence.
pub proof fn lemma_u32s_at_words_end(pre: Seq<u8>, v: Seq<u32>)
    ensures
        u32s_at(pre + words(v), pre.len() as int, v.len()) == v,
        (pre + words(v)).len() == pre.len() + 4 * v.len(),
{
    lemma_u32s_at_words(pre, v, Seq::<u8>::empty());
    assert(pre + words(v) + Seq::<u8>::empty() =~= pre + words(v));
}

/// Bytes inside a prefix are unaffected by what follows it.
pub proof fn lemma_prefix_subrange(s: Seq<u8>, t: Seq<u8>, a: int, b: int)
    requires
        0 <= a <= b <= s.len(),
    ensures
        (s + t).subrange(a, b) == s.subrange(a, b),
{
    assert((s + t).subrange(a, b) =~= s.subrange(a, b));
}

/// Appends the encoding of each word in turn.
pub fn put_words(out: &mut Vec<u8>, v: &[u32])
    ensures
        final(out)@ == old(out)@ + words(v@),
{
    let mut i: usize = 0;
    let n = v.len();
    proof {
        assert(v@.subrange(0, 0) =~= Seq::<u32>::empty());
        assert(old(out)@ + words(Seq::<u32>::empty()) =~= old(out)@);
    }
    while i < n
        invariant
            i <= n,
            n == v@.len(),
            out@ == old(out)@ + words(v@.subrange(0, i as int)),
        decreases n - i,
    {
        let x = v[i];
        put_u32(out, x);
        proof {
            let w = v@.subrange(0, i as int + 1);
            assert(w.drop_last() =~= v@.subrange(0, i as int));
            assert(w.last() == x);
            assert(old(out)@ + words(v@.subrange(0, i as int)) + le32(x) =~= old(out)@ + words(w));
        }
        i = i + 1;
    }
    assert(v@.subrange(0, n as int) =~= v@);
}

/// Appends the little-endian encoding of `x`.
pub fn put_u16(out: &mut Vec<u8>, x: u16)
    ensures
        final(out)@ == old(out)@ + le16(x),
{
    let mut b = u16_to_le_bytes(x);
    out.append(&mut b);
}

/// Appends the little-endian encoding of `x`.
pub fn put_u32(out: &mut Vec<u8>, x: u32)
    ensures
        final(out)@ == old(out)@ + le32(x),
{
    let mut b = u32_to_le_bytes(x);
    out.append(&mut b);
}

/// Appends the little-endian encoding of `x`.
pub fn put_u64(out: &mut Vec<u8>, x: u64)
    ensures
        final(out)@ == old(out)@ + le64(x),
{
    let mut b = u64_to_le_bytes(x);
    out.append(&mut b);
}

/// Appends raw bytes.
pub fn put_bytes(out: &mut Vec<u8>, b: &[u8])
    ensures
        final(out)@ == old(out)@ + b@,
{
    out.extend_from_slice(b);
}

/// Reads the little-endian 16-bit value at `off`.
pub fn get_u16(data: &[u8], off: usize) -> (r: u16)
    requires
        off + 2 <= data@.len(),
    ensures
        r == u16_at(data@, off as int),
{
    let n = data.len();
    assert(off + 2 <= n);
    u16_from_le_bytes(&data[off..off + 2])
}

/// Reads the little-endian 32-bit value at `off`.
pub fn get_u32(data: &[u8], off: usize) -> (r: u32)
    requires
        off + 4 <= data@.len(),
    ensures
        r == u32_at(data@, off as int),
{
    let n = data.len();
    assert(off + 4 <= n);
    u32_from_le_bytes(&data[off..off + 4])
}

/// Reads the little-endian 64-bit value at `off`.
pub fn get_u64(data: &[u8], off: usize) -> (r: u64)
    requires
        off + 8 <= data@.len(),
    ensures
        r == u64_at(data@, off as int),
{
    let n = data.len();
    assert(off + 8 <= n);
    u64_from_le_bytes(&data[off..off + 8])
}

/// Copies a byte vector of exactly `N` bytes into a fixed-size array.
pub fn to_array<const N: usize>(v: &Vec<u8>) -> (a: [u8; N])
    requires
        v@.len() == N,
    ensures
        a@ == v@,
{
    let mut a: [u8; N] = vstd::array::array_fill_for_copy_types::<u8, N>(0u8);
    let mut i: usize = 0;
    while i < N
        invariant
            i <= N,
            v@.len() == N,
            a@.len() == N,
            forall|j: int| 0 <= j < i ==> a@[j] == v@[j],
        decreases N - i,
    {
        a[i] = v[i];
        i = i + 1;
    }
    assert(a@ =~= v@);
    a
}

} // verus!
