//! The ROM image as big-endian 32-bit words.

use vstd::prelude::*;

verus! {

/// Word offset of the bootcode window within the ROM.
pub const BOOTCODE_WORD_OFFSET: usize = 0x10;

/// Smallest ROM size in bytes: the header and the bootcode.
pub const BOOTCODE_SIZE: usize = 0x1000;

/// Why a ROM image cannot be searched.
#[derive(Clone, Copy, Debug, PartialEq, Eq, Structural)]
pub enum RomError {
    /// The size is not a multiple of four bytes.
    SizeNotMultipleOfFour,
    /// The image is smaller than `BOOTCODE_SIZE` bytes.
    TooSmall,
}

/// The word whose big-endian bytes are `b0 b1 b2 b3`.
pub open spec fn be_word(b0: u8, b1: u8, b2: u8, b3: u8) -> u32 {
    (b0 as u32) << 24u32 | (b1 as u32) << 16u32 | (b2 as u32) << 8u32 | (b3 as u32)
}

/// Byte `k` (0 to 3, most significant first) of `w`.
pub open spec fn be_byte(w: u32, k: int) -> u8 {
    if k == 0 {
        (w >> 24u32) as u8
    } else if k == 1 {
        (w >> 16u32) as u8
    } else if k == 2 {
        (w >> 8u32) as u8
    } else {
        w as u8
    }
}

/// The words of `b`, read four bytes at a time, big-endian.
pub open spec fn words_of(b: Seq<u8>) -> Seq<u32> {
    Seq::new(b.len() / 4, |i: int| be_word(b[4 * i], b[4 * i + 1], b[4 * i + 2], b[4 * i + 3]))
}

/// The big-endian bytes of `w`, word after word.
pub open spec fn bytes_of(w: Seq<u32>) -> Seq<u8> {
    Seq::new(4 * w.len(), |j: int| be_byte(w[j / 4], j % 4))
}

proof fn lemma_word_bytes(b0: u8, b1: u8, b2: u8, b3: u8, w: u32)
    ensures
        be_byte(be_word(b0, b1, b2, b3), 0) == b0,
        be_byte(be_word(b0, b1, b2, b3), 1) == b1,
        be_byte(be_word(b0, b1, b2, b3), 2) == b2,
        be_byte(be_word(b0, b1, b2, b3), 3) == b3,
        be_word(be_byte(w, 0), be_byte(w, 1), be_byte(w, 2), be_byte(w, 3)) == w,
{
    let v = be_word(b0, b1, b2, b3);
    assert(((v >> 24u32) as u8) == b0 && ((v >> 16u32) as u8) == b1 && ((v >> 8u32) as u8) == b2
        && (v as u8) == b3) by (bit_vector)
        requires
            v == (b0 as u32) << 24u32 | (b1 as u32) << 16u32 | (b2 as u32) << 8u32 | (b3 as u32),
    ;
    assert(((((w >> 24u32) as u8) as u32) << 24u32 | (((w >> 16u32) as u8) as u32) << 16u32 | (((
    w >> 8u32) as u8) as u32) << 8u32 | ((w as u8) as u32)) == w) by (bit_vector);
}

/// Decoding bytes into words and encoding them back gives the same bytes;
/// encoding words and decoding them gives the same words.
pub proof fn lemma_rom_round_trip(b: Seq<u8>, w: Seq<u32>)
    requires
        b.len() % 4 == 0,
    ensures
        bytes_of(words_of(b)) == b,
        words_of(bytes_of(w)) == w,
{
    let wb = words_of(b);
    assert forall|j: int| 0 <= j < b.len() implies #[trigger] bytes_of(wb)[j] == b[j] by {
        let i = j / 4;
        lemma_word_bytes(b[4 * i], b[4 * i + 1], b[4 * i + 2], b[4 * i + 3], 0);
    }
    assert(bytes_of(wb) =~= b);
    let bw = bytes_of(w);
    assert forall|i: int| 0 <= i < w.len() implies #[trigger] words_of(bw)[i] == w[i] by {
        lemma_word_bytes(0, 0, 0, 0, w[i]);
        assert((4 * i) / 4 == i && (4 * i + 1) / 4 == i && (4 * i + 2) / 4 == i && (4 * i + 3) / 4
            == i);
    }
    assert(words_of(bw) =~= w);
}

fn word_from_be_bytes(b0: u8, b1: u8, b2: u8, b3: u8) -> (r: u32)
    ensures
        r == be_word(b0, b1, b2, b3),
{
    (b0 as u32) << 24 | (b1 as u32) << 16 | (b2 as u32) << 8 | (b3 as u32)
}

/// Reads a ROM image as big-endian words; the size must be a multiple of four
/// and at least `BOOTCODE_SIZE` bytes.
pub fn decode_rom(bytes: &[u8]) -> (r: Result<Vec<u32>, RomError>)
    ensures
        bytes@.len() % 4 != 0 ==> r == Err::<Vec<u32>, RomError>(RomError::SizeNotMultipleOfFour),
        bytes@.len() % 4 == 0 && bytes@.len() < BOOTCODE_SIZE ==> r == Err::<Vec<u32>, RomError>(
            RomError::TooSmall,
        ),
        bytes@.len() % 4 == 0 && bytes@.len() >= BOOTCODE_SIZE ==> (r matches Ok(w) && w@
            == words_of(bytes@)),
{
    let len = bytes.len();
    if len % 4 != 0 {
        return Err(RomError::SizeNotMultipleOfFour);
    }
    if len < BOOTCODE_SIZE {
        return Err(RomError::TooSmall);
    }
    let n = len / 4;
    let mut words: Vec<u32> = Vec::new();
    let mut i: usize = 0;
    while i < n
        invariant
            n == bytes@.len() / 4,
            4 * n == bytes@.len(),
            len == bytes@.len(),
            i <= n,
            words@.len() == i,
            forall|k: int| 0 <= k < i ==> #[trigger] words@[k] == words_of(bytes@)[k],
        decreases n - i,
    {
        let at = 4 * i;
        let w = word_from_be_bytes(bytes[at], bytes[at + 1], bytes[at + 2], bytes[at + 3]);
        words.push(w);
        i = i + 1;
    }
    assert(words@ =~= words_of(bytes@));
    Ok(words)
}

/// Writes words as a ROM image of big-endian bytes.
pub fn encode_rom(words: &[u32]) -> (r: Vec<u8>)
    requires
        words@.len() * 4 <= usize::MAX,
    ensures
        r@ == bytes_of(words@),
{
    let mut bytes: Vec<u8> = Vec::new();
    let mut i: usize = 0;
    while i < words.len()
        invariant
            words@.len() * 4 <= usize::MAX,
            i <= words@.len(),
            bytes@.len() == 4 * i,
            forall|j: int| 0 <= j < 4 * i ==> #[trigger] bytes@[j] == be_byte(words@[j / 4], j % 4),
        decreases words@.len() - i,
    {
        let w = words[i];
        let ghost before = bytes@;
        bytes.push((w >> 24) as u8);
        bytes.push((w >> 16) as u8);
        bytes.push((w >> 8) as u8);
        bytes.push(w as u8);
        assert forall|j: int| 0 <= j < 4 * (i + 1) implies #[trigger] bytes@[j] == be_byte(
            words@[j / 4],
            j % 4,
        ) by {
            if j >= 4 * i {
                assert(j / 4 == i);
            } else {
                assert(bytes@[j] == before[j]);
            }
        }
        i = i + 1;
    }
    assert(bytes@ =~= bytes_of(words@));
    bytes
}

} // verus!
