//! Surface parameters and the uniform block they are packed into.
//!
//! A compute program reads its parameters from a block of four 8-byte words:
//! the scale, the two components of the offset, and one word of padding. The
//! scale and the offset are doubles; this crate carries them as their IEEE-754
//! bit patterns and never does arithmetic on them.

use vstd::prelude::*;

verus! {

/// Number of 8-byte words in a uniform block.
pub const UNIFORM_BLOCK_WORDS: usize = 4;

/// Size of a uniform block in bytes.
pub const UNIFORM_BLOCK_BYTES: usize = 32;

/// The configuration of one surface: a scale factor and a 2D offset, each a
/// double given by its bit pattern.
#[derive(Clone, Copy, Debug, PartialEq, Eq, Structural)]
pub struct SurfaceParams {
    pub scale: u64,
    pub offset_x: u64,
    pub offset_y: u64,
}

/// Byte `k` of `word`, counted from the least significant one.
pub open spec fn word_byte(word: u64, k: int) -> u8 {
    ((word >> ((8 * k) as u64)) & 0xff) as u8
}

/// The bytes of `words` in order, each word least significant byte first.
pub open spec fn le_image(words: Seq<u64>) -> Seq<u8> {
    Seq::new(8 * words.len(), |j: int| word_byte(words[j / 8], j % 8))
}

/// The bytes of `words` in order, each word most significant byte first.
pub open spec fn be_image(words: Seq<u64>) -> Seq<u8> {
    Seq::new(8 * words.len(), |j: int| word_byte(words[j / 8], 7 - j % 8))
}

/// The memory image of `words` on this machine.
///
/// Calls `bytemuck::cast_slice` from `u64` to `u8`. That function reinterprets
/// the slice's memory as bytes: eight per word, in the order of the words. The
/// claim here is that each word then reads in one of the two byte orders, the
/// same for all of them; which one depends on the machine. The cast cannot
/// fail, as a byte has the weakest alignment and its size divides any length.
#[verifier::external_body]
fn words_as_bytes(words: &[u64]) -> (bytes: Vec<u8>)
    ensures
        bytes@.len() == 8 * words@.len(),
        bytes@ == le_image(words@) || bytes@ == be_image(words@),
{
    bytemuck::cast_slice::<u64, u8>(words).to_vec()
}

impl SurfaceParams {
    /// The four words of the block: scale, offset, then zero padding.
    pub open spec fn words(self) -> Seq<u64> {
        seq![self.scale, self.offset_x, self.offset_y, 0u64]
    }

    /// Parameters from the bit patterns of the scale and of the offset.
    pub fn new(scale: u64, offset_x: u64, offset_y: u64) -> (params: SurfaceParams)
        ensures
            params == (SurfaceParams { scale, offset_x, offset_y }),
    {
        SurfaceParams { scale, offset_x, offset_y }
    }

    /// The uniform block for these parameters, as the bytes to upload: the
    /// four words in this machine's byte order. The padding is zero.
    pub fn pack(&self) -> (block: Vec<u8>)
        ensures
            block@.len() == UNIFORM_BLOCK_BYTES,
            block@ == le_image(self.words()) || block@ == be_image(self.words()),
            forall|j: int| 24 <= j < 32 ==> block@[j] == 0,
    {
        let mut words: Vec<u64> = Vec::new();
        words.push(self.scale);
        words.push(self.offset_x);
        words.push(self.offset_y);
        words.push(0);
        let block = words_as_bytes(words.as_slice());
        proof {
            assert forall|j: int| 24 <= j < 32 implies block@[j] == 0 by {
                lemma_zero_word_bytes(j % 8);
                lemma_zero_word_bytes(7 - j % 8);
            }
        }
        block
    }
}

/// Every byte of the zero word is zero.
proof fn lemma_zero_word_bytes(k: int)
    requires
        0 <= k < 8,
    ensures
        word_byte(0, k) == 0,
{
    let s = (8 * k) as u64;
    assert((0u64 >> s) & 0xff == 0) by (bit_vector)
        requires
            s < 64,
    ;
}

/// A word is determined by its eight bytes.
proof fn lemma_word_from_bytes(a: u64, b: u64)
    requires
        forall|k: int| 0 <= k < 8 ==> word_byte(a, k) == word_byte(b, k),
    ensures
        a == b,
{
    assert(word_byte(a, 0) == word_byte(b, 0));
    assert(word_byte(a, 1) == word_byte(b, 1));
    assert(word_byte(a, 2) == word_byte(b, 2));
    assert(word_byte(a, 3) == word_byte(b, 3));
    assert(word_byte(a, 4) == word_byte(b, 4));
    assert(word_byte(a, 5) == word_byte(b, 5));
    assert(word_byte(a, 6) == word_byte(b, 6));
    assert(word_byte(a, 7) == word_byte(b, 7));
    assert(a == b) by (bit_vector)
        requires
            ((a >> 0u64) & 0xff) as u8 == ((b >> 0u64) & 0xff) as u8,
            ((a >> 8u64) & 0xff) as u8 == ((b >> 8u64) & 0xff) as u8,
            ((a >> 16u64) & 0xff) as u8 == ((b >> 16u64) & 0xff) as u8,
            ((a >> 24u64) & 0xff) as u8 == ((b >> 24u64) & 0xff) as u8,
            ((a >> 32u64) & 0xff) as u8 == ((b >> 32u64) & 0xff) as u8,
            ((a >> 40u64) & 0xff) as u8 == ((b >> 40u64) & 0xff) as u8,
            ((a >> 48u64) & 0xff) as u8 == ((b >> 48u64) & 0xff) as u8,
            ((a >> 56u64) & 0xff) as u8 == ((b >> 56u64) & 0xff) as u8,
    ;
}

/// In either byte order the image determines the words: words of the same
/// number with the same image are the same words.
pub proof fn lemma_image_determines_words(a: Seq<u64>, b: Seq<u64>)
    requires
        a.len() == b.len(),
        le_image(a) == le_image(b) || be_image(a) == be_image(b),
    ensures
        a == b,
{
    assert forall|i: int| 0 <= i < a.len() implies a[i] == b[i] by {
        assert forall|k: int| 0 <= k < 8 implies word_byte(a[i], k) == word_byte(b[i], k) by {
            if le_image(a) == le_image(b) {
                let j = 8 * i + k;
                assert(le_image(a)[j] == word_byte(a[i], k));
            } else {
                let j = 8 * i + (7 - k);
                assert(be_image(a)[j] == word_byte(a[i], k));
            }
        }
        lemma_word_from_bytes(a[i], b[i]);
    }
}

/// Different parameters never pack into the same block: in either byte
/// order their blocks differ.
pub proof fn lemma_blocks_differ(first: SurfaceParams, second: SurfaceParams)
    requires
        first != second,
    ensures
        le_image(first.words()) != le_image(second.words()),
        be_image(first.words()) != be_image(second.words()),
{
    if le_image(first.words()) == le_image(second.words()) || be_image(first.words())
        == be_image(second.words()) {
        lemma_image_determines_words(first.words(), second.words());
    }
}

} // verus!
