//! Conversion between a sector's bytes and the 16-bit words that move through
//! the data register. A word carries two consecutive bytes, the first in its
//! low half (the x86 byte order that the data port uses).

use vstd::prelude::*;

verus! {

/// The data-register word that carries byte `lo` followed by byte `hi`.
pub open spec fn word_of(lo: u8, hi: u8) -> u16 {
    (lo as int + 0x100 * hi as int) as u16
}

/// The first byte that a data-register word carries.
pub open spec fn low_byte(w: u16) -> u8 {
    (w % 0x100) as u8
}

/// The second byte that a data-register word carries.
pub open spec fn high_byte(w: u16) -> u8 {
    (w / 0x100) as u8
}

/// The words that carry a byte sequence, two bytes per word.
pub open spec fn words_of_bytes(b: Seq<u8>) -> Seq<u16> {
    Seq::new(b.len() / 2, |i: int| word_of(b[2 * i], b[2 * i + 1]))
}

/// The bytes that a word sequence carries, two per word, low byte first.
pub open spec fn bytes_of_words(w: Seq<u16>) -> Seq<u8> {
    Seq::new(
        2 * w.len(),
        |j: int|
            if j % 2 == 0 {
                low_byte(w[j / 2])
            } else {
                high_byte(w[j / 2])
            },
    )
}

proof fn lemma_word_bytes(w: u16)
    ensures
        word_of(low_byte(w), high_byte(w)) == w,
{
}

proof fn lemma_bytes_word(lo: u8, hi: u8)
    ensures
        low_byte(word_of(lo, hi)) == lo,
        high_byte(word_of(lo, hi)) == hi,
{
}

/// Packs a buffer of bytes into the words that the data register takes, in
/// the order they are sent: word `i` carries bytes `2i` and `2i + 1`.
pub fn sector_to_words(buf: &[u8]) -> (words: Vec<u16>)
    requires
        buf@.len() % 2 == 0,
    ensures
        words@ == words_of_bytes(buf@),
        words@.len() * 2 == buf@.len(),
        forall|i: int| 0 <= i < words@.len() ==> #[trigger] words@[i] as int == buf@[2 * i] as int + 0x100 * buf@[2 * i + 1] as int,
{
    let n: usize = buf.len() / 2;
    let mut words: Vec<u16> = Vec::new();
    let mut i: usize = 0;
    while i < n
        invariant
            2 * n == buf.len(),
            i <= n,
            words@.len() == i,
            forall|k: int| 0 <= k < i ==> words@[k] == word_of(buf@[2 * k], buf@[2 * k + 1]),
        decreases n - i,
    {
        let lo: u8 = buf[2 * i];
        let hi: u8 = buf[2 * i + 1];
        let w: u16 = (lo as u16) | ((hi as u16) << 8u16);
        assert(w == lo as int + 0x100 * hi as int) by (bit_vector)
            requires
                w == (lo as u16) | ((hi as u16) << 8u16),
        ;
        words.push(w);
        i = i + 1;
    }
    assert(words@ =~= words_of_bytes(buf@));
    proof {
        lemma_word_arithmetic(buf@, words@);
    }
    words
}

/// Unpacks words read from the data register into the bytes they carry:
/// bytes `2i` and `2i + 1` come from word `i`, low half first.
pub fn words_to_sector(words: &[u16]) -> (buf: Vec<u8>)
    requires
        words@.len() * 2 <= usize::MAX,
    ensures
        buf@ == bytes_of_words(words@),
        buf@.len() == 2 * words@.len(),
        forall|i: int| 0 <= i < words@.len() ==> {
            &&& #[trigger] buf@[2 * i] as int == words@[i] as int % 0x100
            &&& buf@[2 * i + 1] as int == words@[i] as int / 0x100
        },
{
    let mut buf: Vec<u8> = Vec::new();
    let mut i: usize = 0;
    while i < words.len()
        invariant
            words@.len() * 2 <= usize::MAX,
            i <= words@.len(),
            buf@.len() == 2 * i,
            forall|j: int| 0 <= j < 2 * i ==> buf@[j] == bytes_of_words(words@)[j],
        decreases words@.len() - i,
    {
        let w: u16 = words[i];
        let lo: u8 = (w & 0xFFu16) as u8;
        let hi: u8 = (w >> 8u16) as u8;
        assert(lo == w % 0x100 && hi == w / 0x100) by (bit_vector)
            requires
                lo == (w & 0xFFu16) as u8,
                hi == (w >> 8u16) as u8,
        ;
        buf.push(lo);
        buf.push(hi);
        i = i + 1;
    }
    assert(buf@ =~= bytes_of_words(words@));
    proof {
        lemma_word_arithmetic(buf@, words@);
    }
    buf
}

/// Unpacking the words that a buffer was packed into gives the buffer back:
/// what a write sends is, byte for byte, what a read of the same words
/// rebuilds.
pub proof fn lemma_bytes_round_trip(b: Seq<u8>)
    requires
        b.len() % 2 == 0,
    ensures
        bytes_of_words(words_of_bytes(b)) == b,
{
    let w = words_of_bytes(b);
    assert forall|j: int| 0 <= j < b.len() implies #[trigger] bytes_of_words(w)[j] == b[j] by {
        let i = j / 2;
        lemma_bytes_word(b[2 * i], b[2 * i + 1]);
    }
    assert(bytes_of_words(w) =~= b);
}

/// Packing the bytes that a word sequence carries gives the words back.
pub proof fn lemma_words_round_trip(w: Seq<u16>)
    ensures
        words_of_bytes(bytes_of_words(w)) == w,
{
    let b = bytes_of_words(w);
    assert forall|i: int| 0 <= i < w.len() implies #[trigger] words_of_bytes(b)[i] == w[i] by {
        assert((2 * i) / 2 == i);
        assert((2 * i + 1) / 2 == i);
        assert((2 * i) % 2 == 0);
        assert((2 * i + 1) % 2 == 1);
        lemma_word_bytes(w[i]);
    }
    assert(words_of_bytes(b) =~= w);
}

/// What packing and unpacking compute, as arithmetic: word `i` of a packed
/// buffer is byte `2i` plus 256 times byte `2i + 1`, and an unpacked word
/// gives its value modulo 256 and then its value divided by 256.
pub proof fn lemma_word_arithmetic(b: Seq<u8>, w: Seq<u16>)
    ensures
        words_of_bytes(b).len() == b.len() / 2,
        forall|i: int| 0 <= i < b.len() / 2 ==> #[trigger] words_of_bytes(b)[i] as int
            == b[2 * i] as int + 0x100 * b[2 * i + 1] as int,
        bytes_of_words(w).len() == 2 * w.len(),
        forall|i: int| 0 <= i < w.len() ==> {
            &&& #[trigger] bytes_of_words(w)[2 * i] as int == w[i] as int % 0x100
            &&& bytes_of_words(w)[2 * i + 1] as int == w[i] as int / 0x100
        },
{
    assert forall|i: int| 0 <= i < b.len() / 2 implies #[trigger] words_of_bytes(b)[i] as int
        == b[2 * i] as int + 0x100 * b[2 * i + 1] as int by {
        let lo = b[2 * i];
        let hi = b[2 * i + 1];
        assert(lo as int + 0x100 * hi as int <= 0xFFFF);
    }
    assert forall|i: int| 0 <= i < w.len() implies {
        &&& #[trigger] bytes_of_words(w)[2 * i] as int == w[i] as int % 0x100
        &&& bytes_of_words(w)[2 * i + 1] as int == w[i] as int / 0x100
    } by {
        assert((2 * i) / 2 == i && (2 * i) % 2 == 0);
        assert((2 * i + 1) / 2 == i && (2 * i + 1) % 2 == 1);
    }
}

} // verus!
