//! The memory model: a ROM image of 65,536 words that the CPU executes and
//! the GPU polls, and a private RAM that holds the CPU's call stack.
//!
//! On disk the ROM is its words in order, each as two bytes, high byte
//! first.

use vstd::prelude::*;
use crate::opcodes::NO_OPERAT;

verus! {

/// Number of words in the ROM.
pub const ROM_WORDS: usize = 0x1_0000;

/// Number of bytes in a ROM image on disk.
pub const ROM_BYTES: usize = 0x2_0000;

/// Number of words in the CPU's private RAM.
pub const RAM_WORDS: usize = 1024;

/// First address of the GPU command buffer.
pub const GPU_BUFFER_START: u16 = 0x0300;

/// Last address of the GPU command buffer.
pub const GPU_BUFFER_END: u16 = 0x0FFF;

/// First address of the program area.
pub const CODE_START: u16 = 0x1000;

/// Last address of the program area.
pub const CODE_END: u16 = 0xFFFE;

/// The word whose big-endian bytes are `hi`, `lo`.
pub open spec fn word_from_bytes(hi: u8, lo: u8) -> u16 {
    (hi as int * 256 + lo as int) as u16
}

/// High byte of a word.
pub open spec fn high_byte(word: u16) -> u8 {
    (word as int / 256) as u8
}

/// Low byte of a word.
pub open spec fn low_byte(word: u16) -> u8 {
    (word as int % 256) as u8
}

/// The words held by a byte string, two bytes to a word, high byte first.
/// An odd byte at the end is not part of any word.
pub open spec fn decode_words(bytes: Seq<u8>) -> Seq<u16> {
    Seq::new(bytes.len() / 2, |i: int| word_from_bytes(bytes[2 * i], bytes[2 * i + 1]))
}

/// The byte string that holds the given words, high byte first.
pub open spec fn encode_words(words: Seq<u16>) -> Seq<u8> {
    Seq::new(
        words.len() * 2,
        |i: int|
            if i % 2 == 0 {
                high_byte(words[i / 2])
            } else {
                low_byte(words[i / 2])
            },
    )
}

/// Splitting a word into bytes and joining them gives the word back.
pub proof fn lemma_word_bytes_roundtrip(word: u16)
    ensures
        word_from_bytes(high_byte(word), low_byte(word)) == word,
{
}

/// Joining two bytes and splitting the word gives the bytes back.
pub proof fn lemma_bytes_word_roundtrip(hi: u8, lo: u8)
    ensures
        high_byte(word_from_bytes(hi, lo)) == hi,
        low_byte(word_from_bytes(hi, lo)) == lo,
{
}

/// Decoding an encoded word sequence gives the same sequence.
pub proof fn lemma_decode_encode(words: Seq<u16>)
    ensures
        decode_words(encode_words(words)) == words,
{
    let bytes = encode_words(words);
    assert(bytes.len() / 2 == words.len());
    assert forall|i: int| 0 <= i < words.len() implies decode_words(bytes)[i] == words[i] by {
        assert(bytes[2 * i] == high_byte(words[i]));
        assert(bytes[2 * i + 1] == low_byte(words[(2 * i + 1) / 2]));
        lemma_word_bytes_roundtrip(words[i]);
    }
    assert(decode_words(bytes) =~= words);
}

/// Encoding the words decoded from a byte string of even length gives the
/// same bytes.
pub proof fn lemma_encode_decode(bytes: Seq<u8>)
    requires
        bytes.len() % 2 == 0,
    ensures
        encode_words(decode_words(bytes)) == bytes,
{
    let words = decode_words(bytes);
    assert forall|i: int| 0 <= i < bytes.len() implies encode_words(words)[i] == bytes[i] by {
        let k = i / 2;
        lemma_bytes_word_roundtrip(bytes[2 * k], bytes[2 * k + 1]);
    }
    assert(encode_words(words) =~= bytes);
}

/// Why a byte string is not a ROM image.
#[derive(Clone, Copy, Debug, PartialEq, Eq)]
pub struct RomSizeError {
    /// Number of bytes that were offered.
    pub found: usize,
}

/// One word to be written back to the ROM image on disk.
#[derive(Clone, Copy, Debug, PartialEq, Eq)]
pub struct RomPatch {
    /// Byte offset of the word in the image.
    pub offset: u64,
    /// High byte of the word.
    pub high: u8,
    /// Low byte of the word.
    pub low: u8,
}

/// ROM and RAM of one machine.
#[derive(Debug)]
pub struct Memory {
    pub rom: Vec<u16>,
    pub ram: [u16; 1024],
}

impl Memory {
    /// A memory is well formed when its ROM has exactly 65,536 words.
    pub open spec fn wf(&self) -> bool {
        self.rom@.len() == ROM_WORDS
    }

    /// Tells at run time whether the memory is well formed.
    pub fn is_wf(&self) -> (ok: bool)
        ensures
            ok == self.wf(),
    {
        self.rom.len() == ROM_WORDS
    }

    /// Builds the memory of a machine from a ROM image as it lies on disk.
    ///
    /// An image has exactly 131,072 bytes; any other length is refused.
    /// The RAM starts out filled with no-operation words.
    pub fn init(image: &[u8]) -> (result: Result<Memory, RomSizeError>)
        ensures
            result is Ok <==> image@.len() == ROM_BYTES,
            result matches Ok(memory) ==> {
                &&& memory.wf()
                &&& memory.rom@ == decode_words(image@)
                &&& forall|i: int| 0 <= i < RAM_WORDS ==> memory.ram@[i] == NO_OPERAT
            },
            result matches Err(error) ==> error.found == image@.len(),
    {
        if image.len() != ROM_BYTES {
            return Err(RomSizeError { found: image.len() });
        }
        let mut rom: Vec<u16> = Vec::with_capacity(ROM_WORDS);
        let mut i: usize = 0;
        while i < ROM_WORDS
            invariant
                i <= ROM_WORDS,
                image@.len() == ROM_BYTES,
                rom@.len() == i,
                forall|k: int|
                    0 <= k < i ==> rom@[k] == word_from_bytes(image@[2 * k], image@[2 * k + 1]),
            decreases ROM_WORDS - i,
        {
            let hi: u8 = image[2 * i];
            let lo: u8 = image[2 * i + 1];
            rom.push(join_bytes(hi, lo));
            i += 1;
        }
        assert(rom@ =~= decode_words(image@));
        Ok(Memory { rom, ram: [NO_OPERAT; 1024] })
    }

    /// The bytes of the ROM as they lie on disk.
    pub fn to_bytes(&self) -> (bytes: Vec<u8>)
        ensures
            bytes@ == encode_words(self.rom@),
    {
        encode_rom(&self.rom)
    }

    /// The single-word overwrite that brings the image on disk up to date
    /// after the word at `address` has changed.
    pub fn update(&self, address: u16) -> (patch: RomPatch)
        requires
            self.wf(),
        ensures
            patch.offset == 2 * address,
            patch.high == high_byte(self.rom@[address as int]),
            patch.low == low_byte(self.rom@[address as int]),
    {
        let word: u16 = self.rom[address as usize];
        RomPatch { offset: 2 * (address as u64), high: (word / 256) as u8, low: (word % 256) as u8 }
    }
}

/// Joins two bytes into a word, high byte first.
pub fn join_bytes(hi: u8, lo: u8) -> (word: u16)
    ensures
        word == word_from_bytes(hi, lo),
{
    (hi as u16) * 256 + (lo as u16)
}

/// Lays words out as bytes, high byte first.
pub fn encode_rom(words: &Vec<u16>) -> (bytes: Vec<u8>)
    ensures
        bytes@ == encode_words(words@),
{
    let mut bytes: Vec<u8> = Vec::new();
    let mut i: usize = 0;
    while i < words.len()
        invariant
            i <= words@.len(),
            bytes@.len() == 2 * i,
            forall|k: int| 0 <= k < 2 * i ==> bytes@[k] == encode_words(words@)[k],
        decreases words@.len() - i,
    {
        let word: u16 = words[i];
        bytes.push((word / 256) as u8);
        bytes.push((word % 256) as u8);
        i += 1;
    }
    assert(bytes@ =~= encode_words(words@));
    bytes
}

/// Whether a word counts as used: it is neither zero nor the GPU
/// no-operation word.
pub open spec fn is_used(word: u16) -> bool {
    word != 0x0000 && word != 0xA000
}

/// Number of used words among `words`.
pub open spec fn used_count(words: Seq<u16>) -> nat
    decreases words.len(),
{
    if words.len() == 0 {
        0
    } else {
        used_count(words.drop_last()) + if is_used(words.last()) {
            1nat
        } else {
            0nat
        }
    }
}

/// Counts the words that are neither zero nor the GPU no-operation word.
pub fn count_used(words: &Vec<u16>) -> (count: usize)
    ensures
        count == used_count(words@),
{
    let mut count: usize = 0;
    let mut i: usize = 0;
    while i < words.len()
        invariant
            i <= words@.len(),
            count == used_count(words@.take(i as int)),
            count <= i,
        decreases words@.len() - i,
    {
        proof {
            assert(words@.take(i + 1).drop_last() =~= words@.take(i as int));
        }
        if words[i] != 0x0000 && words[i] != 0xA000 {
            count += 1;
        }
        i += 1;
    }
    assert(words@.take(i as int) =~= words@);
    count
}

/// The value of binary digit `position` of a word, where position 0 is
/// the most significant of the sixteen.
pub open spec fn bit_weight(position: int) -> int
    decreases position,
{
    if position <= 0 {
        0x8000
    } else {
        bit_weight(position - 1) / 2
    }
}

/// The character, `0` or `1`, of binary digit `position` of `word`.
pub open spec fn bit_char(word: u16, position: int) -> u8 {
    if (word as int / bit_weight(position)) % 2 == 1 {
        0x31
    } else {
        0x30
    }
}

/// The words as text: one line for each word, which holds its sixteen
/// binary digits, most significant first, and ends with a line feed.
pub open spec fn text_dump(words: Seq<u16>) -> Seq<u8> {
    Seq::new(
        words.len() * 17,
        |i: int|
            if i % 17 == 16 {
                0x0Au8
            } else {
                bit_char(words[i / 17], i % 17)
            },
    )
}

/// Writes words as text, one line of sixteen binary digits for each.
pub fn dump_text(words: &Vec<u16>) -> (text: Vec<u8>)
    ensures
        text@ == text_dump(words@),
{
    let mut text: Vec<u8> = Vec::new();
    let mut i: usize = 0;
    while i < words.len()
        invariant
            i <= words@.len(),
            text@.len() == 17 * i,
            forall|k: int| 0 <= k < 17 * i ==> text@[k] == text_dump(words@)[k],
        decreases words@.len() - i,
    {
        let word: u16 = words[i];
        let mut weight: u16 = 0x8000;
        let mut position: usize = 0;
        while position < 16
            invariant
                i < words@.len(),
                word == words@[i as int],
                position <= 16,
                position < 16 ==> weight == bit_weight(position as int) && weight > 0,
                text@.len() == 17 * i + position,
                forall|k: int| 0 <= k < 17 * i + position ==> text@[k] == text_dump(words@)[k],
            decreases 16 - position,
        {
            let ghost k = 17 * i + position;
            assert(k / 17 == i && k % 17 == position) by {
                assert(k == 17 * i + position);
            }
            if (word / weight) % 2 == 1 {
                text.push(0x31);
            } else {
                text.push(0x30);
            }
            assert(bit_weight(position + 1) == bit_weight(position as int) / 2);
            weight = weight / 2;
            position += 1;
            proof {
                if position < 16 {
                    lemma_bit_weight(position as int);
                }
            }
        }
        let ghost k = 17 * i + 16;
        assert(k / 17 == i && k % 17 == 16);
        text.push(0x0A);
        i += 1;
    }
    assert(text@ =~= text_dump(words@));
    text
}

/// The sixteen digit values: each is the power of two of its place.
pub proof fn lemma_bit_weight(position: int)
    requires
        0 <= position < 16,
    ensures
        bit_weight(position) > 0,
        position == 0 ==> bit_weight(position) == 0x8000,
        position == 15 ==> bit_weight(position) == 1,
    decreases position,
{
    reveal_with_fuel(bit_weight, 17);
}

} // verus!
