//! Sizes of payloads, counts in draw commands, and the words of shader
//! binaries.

use vstd::endian::{endianness, Endian};
use vstd::layout::size_of;
use vstd::prelude::*;

verus! {

/// Size in bytes of `len` records of `record_size` bytes each.
pub open spec fn payload_bytes(len: nat, record_size: nat) -> nat {
    len * record_size
}

/// Number of bytes that the records of `slice` occupy.
pub fn size_of_slice<T: Sized>(slice: &[T]) -> (bytes: usize)
    requires
        payload_bytes(slice@.len(), size_of::<T>()) <= usize::MAX,
    ensures
        bytes == payload_bytes(slice@.len(), size_of::<T>()),
{
    core::mem::size_of::<T>() * slice.len()
}

/// The byte size of `len` records of `record_size` bytes, where it fits in 64 bits.
pub fn checked_payload_bytes(len: usize, record_size: usize) -> (bytes: Option<u64>)
    ensures
        match bytes {
            Some(b) => b == payload_bytes(len as nat, record_size as nat),
            None => payload_bytes(len as nat, record_size as nat) > u64::MAX,
        },
{
    let total: Option<u64> = (len as u64).checked_mul(record_size as u64);
    total
}

/// The low 32 bits of `count`: what a count becomes in a draw command.
pub open spec fn low_32_bits(count: nat) -> u32 {
    (count % 0x1_0000_0000) as u32
}

/// The first word of every SPIR-V binary.
pub const MAGIC_NUMBER: u32 = 0x0723_0203;

/// The word whose bytes, lowest first, are `b0` to `b3`.
pub open spec fn little_endian_word(b0: u8, b1: u8, b2: u8, b3: u8) -> u32 {
    (b0 as int + b1 as int * 0x100 + b2 as int * 0x1_0000 + b3 as int * 0x100_0000) as u32
}

/// The word whose bytes, highest first, are `b0` to `b3`.
pub open spec fn big_endian_word(b0: u8, b1: u8, b2: u8, b3: u8) -> u32 {
    little_endian_word(b3, b2, b1, b0)
}

/// The word that the machine reads from the bytes `b0` to `b3`, in its own
/// byte order: lowest byte first on a little-endian machine, highest first on
/// a big-endian one.
pub open spec fn native_endian_word(b0: u8, b1: u8, b2: u8, b3: u8) -> u32 {
    match endianness() {
        Endian::Little => little_endian_word(b0, b1, b2, b3),
        Endian::Big => big_endian_word(b0, b1, b2, b3),
    }
}

/// The `k`-th word of `data` as the machine reads it: the four bytes from
/// `4 * k` on.
pub open spec fn word_at(data: Seq<u8>, k: int) -> u32 {
    native_endian_word(data[4 * k], data[4 * k + 1], data[4 * k + 2], data[4 * k + 3])
}

/// The words of `data` as the machine reads them, four bytes each; bytes
/// beyond the last whole word are left out.
pub open spec fn words_of(data: Seq<u8>) -> Seq<u32> {
    Seq::new((data.len() / 4) as nat, |k: int| word_at(data, k))
}

/// Whether `data` is a SPIR-V binary to this machine: whole words, at least
/// one, the first of them the magic number.
pub open spec fn is_spirv(data: Seq<u8>) -> bool {
    &&& data.len() % 4 == 0
    &&& data.len() > 0
    &&& word_at(data, 0) == MAGIC_NUMBER
}

/// `u32::from_ne_bytes`, which reads four bytes as a word in the byte order
/// of the machine that runs it.
#[verifier::external_body]
fn native_word(b0: u8, b1: u8, b2: u8, b3: u8) -> (word: u32)
    ensures
        word == native_endian_word(b0, b1, b2, b3),
{
    u32::from_ne_bytes([b0, b1, b2, b3])
}

/// The words that `data` holds, four bytes each, in the byte order of the
/// machine; none where the bytes do not make up whole words.
pub fn spirv_words(data: &[u8]) -> (words: Option<Vec<u32>>)
    ensures
        match words {
            Some(words) => data@.len() % 4 == 0 && words@ == words_of(data@),
            None => data@.len() % 4 != 0,
        },
{
    if data.len() % 4 != 0 {
        return None;
    }
    let length = data.len();
    let count = length / 4;
    let mut words: Vec<u32> = Vec::new();
    let mut k: usize = 0;
    while k < count
        invariant
            k <= count,
            length == data@.len(),
            count == length / 4,
            words@.len() == k,
            forall|j: int| 0 <= j < k ==> #[trigger] words@[j] == word_at(data@, j),
        decreases count - k,
    {
        let word = native_word(data[4 * k], data[4 * k + 1], data[4 * k + 2], data[4 * k + 3]);
        words.push(word);
        k += 1;
    }
    assert(words@ =~= words_of(data@));
    Some(words)
}

/// The words themselves where they begin with the magic number, else none.
pub fn check_magic(words: Vec<u32>) -> (checked: Option<Vec<u32>>)
    ensures
        checked.is_some() <==> words@.len() > 0 && words@[0] == MAGIC_NUMBER,
        checked.is_some() ==> checked.unwrap() == words,
{
    if words.len() > 0 && words[0] == MAGIC_NUMBER {
        Some(words)
    } else {
        None
    }
}

/// Reads a SPIR-V binary as words in the byte order of the machine. There is
/// none where the bytes do not make up whole words, where there is no word
/// at all, or where the first word as this machine reads it is not the magic
/// number.
pub fn make_spirv(data: &[u8]) -> (words: Option<Vec<u32>>)
    ensures
        match words {
            Some(words) => is_spirv(data@) && words@ == words_of(data@),
            None => !is_spirv(data@),
        },
{
    match spirv_words(data) {
        Some(words) => check_magic(words),
        None => None,
    }
}

} // verus!
