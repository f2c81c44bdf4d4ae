//! Buffer contents: the words of vertex, index and instance data as the
//! bytes that are uploaded.

use vstd::prelude::*;

verus! {

/// Byte number `k` of a word, counted from the least significant one.
pub open spec fn word_byte(word: u32, k: int) -> u8 {
    if k == 0 {
        (word % 0x100) as u8
    } else if k == 1 {
        (word / 0x100 % 0x100) as u8
    } else if k == 2 {
        (word / 0x1_0000 % 0x100) as u8
    } else {
        (word / 0x100_0000 % 0x100) as u8
    }
}

/// The bytes of the words in order, each word with its least significant
/// byte first.
pub open spec fn little_endian_bytes(words: Seq<u32>) -> Seq<u8> {
    Seq::new(4 * words.len(), |i: int| word_byte(words[i / 4], i % 4))
}

/// The bytes of the words in order, each word with its most significant
/// byte first.
pub open spec fn big_endian_bytes(words: Seq<u32>) -> Seq<u8> {
    Seq::new(4 * words.len(), |i: int| word_byte(words[i / 4], 3 - i % 4))
}

/// The bytes are those of the words in the byte order of some machine.
pub open spec fn bytes_of_words(bytes: Seq<u8>, words: Seq<u32>) -> bool {
    bytes == little_endian_bytes(words) || bytes == big_endian_bytes(words)
}

/// The words as the bytes they occupy in memory.
///
/// This is `bytemuck::cast_slice` from `u32` to `u8`, which hands out the
/// memory of the slice as it lies: four bytes for each word, the words in
/// their order, the bytes of a word in the byte order of the machine. The
/// target has no alignment to miss and every length fits, so the call
/// cannot fail.
#[verifier::external_body]
pub(crate) fn words_to_bytes(words: &Vec<u32>) -> (bytes: Vec<u8>)
    ensures
        bytes_of_words(bytes@, words@),
{
    bytemuck::cast_slice::<u32, u8>(words.as_slice()).to_vec()
}

} // verus!
