//! Little-endian words: the byte layouts shared by pixel lanes and GPU buffers.

use vstd::prelude::*;

verus! {

/// The two bytes of a 16-bit word, least significant first.
pub open spec fn le16(v: u16) -> Seq<u8> {
    seq![(v as int % 256) as u8, (v as int / 256) as u8]
}

/// The four bytes of a 32-bit word, least significant first.
pub open spec fn le32(v: u32) -> Seq<u8> {
    seq![
        (v as int % 256) as u8,
        ((v as int / 0x100) % 256) as u8,
        ((v as int / 0x1_0000) % 256) as u8,
        (v as int / 0x100_0000) as u8,
    ]
}

/// The bytes of consecutive 32-bit words.
pub open spec fn le_words(words: Seq<u32>) -> Seq<u8> {
    Seq::new(4 * words.len(), |i: int| le32(words[i / 4])[i % 4])
}

/// The 16-bit word made of two bytes, least significant first.
pub fn word16(b0: u8, b1: u8) -> (r: u16)
    ensures
        le16(r) == seq![b0, b1],
{
    let r: u16 = b0 as u16 + b1 as u16 * 256;
    assert(le16(r) =~= seq![b0, b1]);
    r
}

/// The 32-bit word made of four bytes, least significant first.
pub fn word32(b0: u8, b1: u8, b2: u8, b3: u8) -> (r: u32)
    ensures
        le32(r) == seq![b0, b1, b2, b3],
{
    let t2: u32 = b2 as u32 + b3 as u32 * 0x100;
    let t1: u32 = b1 as u32 + t2 * 0x100;
    let r: u32 = b0 as u32 + t1 * 0x100;
    proof {
        let v = r as int;
        assert(v % 256 == b0);
        assert(v / 0x100 == t1);
        assert(t1 as int % 256 == b1);
        assert(v / 0x1_0000 == t2) by {
            assert(v / 0x1_0000 == (v / 0x100) / 0x100);
        }
        assert(t2 as int % 256 == b2);
        assert(v / 0x100_0000 == b3) by {
            assert(v / 0x100_0000 == (v / 0x1_0000) / 0x100);
        }
        assert(le32(r) =~= seq![b0, b1, b2, b3]);
    }
    r
}

/// The two bytes of a 16-bit word.
pub fn bytes16(v: u16) -> (r: [u8; 2])
    ensures
        r@ == le16(v),
{
    let r: [u8; 2] = [(v % 256) as u8, (v / 256) as u8];
    assert(r@ =~= le16(v));
    r
}

/// The four bytes of a 32-bit word.
pub fn bytes32(v: u32) -> (r: [u8; 4])
    ensures
        r@ == le32(v),
{
    let r: [u8; 4] = [
        (v % 256) as u8,
        ((v / 0x100) % 256) as u8,
        ((v / 0x1_0000) % 256) as u8,
        (v / 0x100_0000) as u8,
    ];
    assert(r@ =~= le32(v));
    r
}

/// Different 16-bit words have different bytes.
pub proof fn lemma_le16_injective(a: u16, b: u16)
    requires
        le16(a) == le16(b),
    ensures
        a == b,
{
    assert(le16(a)[0] == le16(b)[0]);
    assert(le16(a)[1] == le16(b)[1]);
}

/// Different 32-bit words have different bytes.
pub proof fn lemma_le32_injective(a: u32, b: u32)
    requires
        le32(a) == le32(b),
    ensures
        a == b,
{
    assert(le32(a)[0] == le32(b)[0]);
    assert(le32(a)[1] == le32(b)[1]);
    assert(le32(a)[2] == le32(b)[2]);
    assert(le32(a)[3] == le32(b)[3]);
}

/// The bytes of a list of 32-bit words, in order.
pub fn pack_words(words: &Vec<u32>) -> (r: Vec<u8>)
    ensures
        r@ == le_words(words@),
{
    let mut r: Vec<u8> = Vec::new();
    let mut i: usize = 0;
    while i < words.len()
        invariant
            i <= words.len(),
            r@ == le_words(words@.take(i as int)),
        decreases words.len() - i,
    {
        let b: [u8; 4] = bytes32(words[i]);
        let ghost before = r@;
        r.push(b[0]);
        r.push(b[1]);
        r.push(b[2]);
        r.push(b[3]);
        proof {
            let next = words@.take(i as int + 1);
            assert(b@ == le32(next[i as int]));
            assert forall|k: int| 0 <= k < r@.len() implies r@[k] == le_words(next)[k] by {
                if k < before.len() {
                    assert(before[k] == le_words(words@.take(i as int))[k]);
                    assert(next[k / 4] == words@.take(i as int)[k / 4]);
                } else {
                    assert(k / 4 == i);
                    assert(r@[k] == b@[k % 4]);
                }
            }
            assert(r@ =~= le_words(next));
        }
        i = i + 1;
    }
    assert(words@.take(i as int) =~= words@);
    r
}

/// The two's-complement word of a signed number.
pub open spec fn twos(v: i32) -> u32 {
    if v < 0 {
        (v + 0x1_0000_0000) as u32
    } else {
        v as u32
    }
}

/// The two's-complement word of a signed number.
pub fn word_of_i32(v: i32) -> (r: u32)
    ensures
        r == twos(v),
{
    if v < 0 {
        (v as i64 + 0x1_0000_0000) as u32
    } else {
        v as u32
    }
}

/// The `index`-th 32-bit word of a byte buffer.
pub fn read_u32_le(bytes: &[u8], index: usize) -> (r: u32)
    requires
        4 * index + 4 <= bytes.len(),
    ensures
        le32(r) == bytes@.subrange(4 * index, 4 * index + 4),
{
    let o: usize = index * 4;
    let r: u32 = word32(bytes[o], bytes[o + 1], bytes[o + 2], bytes[o + 3]);
    assert(bytes@.subrange(4 * index, 4 * index + 4) =~= seq![
        bytes@[o as int],
        bytes@[o + 1],
        bytes@[o + 2],
        bytes@[o + 3],
    ]);
    r
}

/// Words are stored least significant byte first.
pub proof fn law_words_are_little_endian(v: u16, w: u32)
    ensures
        le16(v).len() == 2,
        le16(v)[0] + 0x100 * le16(v)[1] == v,
        le32(w).len() == 4,
        le32(w)[0] + 0x100 * le32(w)[1] + 0x1_0000 * le32(w)[2] + 0x100_0000 * le32(w)[3] == w,
{
    let n = w as int;
    assert(n / 0x1_0000 == (n / 0x100) / 0x100);
    assert(n / 0x100_0000 == (n / 0x1_0000) / 0x100);
}

/// The bytes of consecutive words lie end to end.
pub proof fn law_words_lie_end_to_end(words: Seq<u32>, k: int)
    requires
        0 <= k < words.len(),
    ensures
        le_words(words).len() == 4 * words.len(),
        le_words(words).subrange(4 * k, 4 * k + 4) == le32(words[k]),
{
    assert forall|j: int| 0 <= j < 4 implies le_words(words)[4 * k + j] == le32(words[k])[j] by {
        assert((4 * k + j) / 4 == k && (4 * k + j) % 4 == j);
    }
    assert(le_words(words).subrange(4 * k, 4 * k + 4) =~= le32(words[k]));
}

/// A signed number's word is the number modulo 2^32.
pub proof fn law_signed_words_wrap(v: i32)
    ensures
        v >= 0 ==> twos(v) == v,
        v < 0 ==> twos(v) == v + 0x1_0000_0000,
{
}

} // verus!
