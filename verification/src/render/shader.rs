//! Compiled shaders.

use vstd::prelude::*;

verus! {

/// The first word of every module.
pub const SPIRV_MAGIC: u32 = 0x0723_0203;

/// Four bytes as a number, the low byte first.
pub open spec fn le_word(bytes: Seq<u8>, start: int) -> u32 {
    (bytes[start] + 0x100 * bytes[start + 1] + 0x1_0000 * bytes[start + 2] + 0x100_0000
        * bytes[start + 3]) as u32
}

/// Four bytes as a number, the high byte first.
pub open spec fn be_word(bytes: Seq<u8>, start: int) -> u32 {
    (bytes[start + 3] + 0x100 * bytes[start + 2] + 0x1_0000 * bytes[start + 1] + 0x100_0000
        * bytes[start]) as u32
}

/// Bytes are a module where they are whole words and begin with the magic word, in
/// either byte order.
pub open spec fn is_module(bytes: Seq<u8>) -> bool {
    &&& bytes.len() % 4 == 0
    &&& bytes.len() >= 4
    &&& le_word(bytes, 0) == SPIRV_MAGIC || be_word(bytes, 0) == SPIRV_MAGIC
}

/// The words of a module, read in the byte order of its first.
pub open spec fn module_words(bytes: Seq<u8>) -> Seq<u32> {
    Seq::new(
        bytes.len() / 4,
        |i: int|
            if le_word(bytes, 0) == SPIRV_MAGIC {
                le_word(bytes, 4 * i)
            } else {
                be_word(bytes, 4 * i)
            },
    )
}

/// Calls `ash::util::read_spv` on the bytes in memory. It refuses bytes that are
/// not whole words or do not begin with the magic word in one of the two byte
/// orders, and reads all others in the order of their first word.
#[verifier::external_body]
fn ash_read_spv(bytes: &[u8]) -> (words: Option<Vec<u32>>)
    ensures
        match words {
            Some(words) => is_module(bytes@) && words@ == module_words(bytes@),
            None => !is_module(bytes@),
        },
{
    ash::util::read_spv(&mut std::io::Cursor::new(bytes)).ok()
}

/// The words of a compiled shader.
pub fn shader_words(bytes: &[u8]) -> (words: Option<Vec<u32>>)
    ensures
        match words {
            Some(words) => is_module(bytes@) && words@ == module_words(bytes@),
            None => !is_module(bytes@),
        },
{
    ash_read_spv(bytes)
}

/// Which bytes are a module: whole words of four bytes, the first of them
/// 03 02 23 07 or its reverse. The first form has the least significant byte of
/// each word first, the second the most significant.
pub proof fn law_what_a_module_is(bytes: Seq<u8>, i: int)
    requires
        bytes.len() >= 4,
    ensures
        is_module(bytes) <==> bytes.len() % 4 == 0 && (bytes.take(4) == seq![
            0x03u8,
            0x02u8,
            0x23u8,
            0x07u8,
        ] || bytes.take(4) == seq![0x07u8, 0x23u8, 0x02u8, 0x03u8]),
        is_module(bytes) ==> 4 * module_words(bytes).len() == bytes.len(),
        is_module(bytes) && 0 <= i < bytes.len() / 4 ==> ({
            let word = module_words(bytes)[i];
            if bytes[0] == 0x03 {
                word == bytes[4 * i] + 256 * bytes[4 * i + 1] + 65_536 * bytes[4 * i + 2]
                    + 16_777_216 * bytes[4 * i + 3]
            } else {
                word == 16_777_216 * bytes[4 * i] + 65_536 * bytes[4 * i + 1] + 256 * bytes[4 * i
                    + 2] + bytes[4 * i + 3]
            }
        }),
{
    let little = seq![0x03u8, 0x02u8, 0x23u8, 0x07u8];
    let big = seq![0x07u8, 0x23u8, 0x02u8, 0x03u8];
    let first = bytes.take(4);
    assert(first[0] == bytes[0] && first[1] == bytes[1] && first[2] == bytes[2] && first[3]
        == bytes[3]);
    if first == little {
        assert(bytes[0] == little[0] && bytes[1] == little[1] && bytes[2] == little[2] && bytes[3]
            == little[3]);
    }
    if first == big {
        assert(bytes[0] == big[0] && bytes[1] == big[1] && bytes[2] == big[2] && bytes[3]
            == big[3]);
    }
    if le_word(bytes, 0) == SPIRV_MAGIC {
        assert(first =~= little);
    }
    if be_word(bytes, 0) == SPIRV_MAGIC {
        assert(first =~= big);
    }
}

} // verus!
