//! Properties of the serialized format, stated and proved once.

use vstd::prelude::*;

use crate::gif::{
    chunked, color_table_bytes, dechunk, extension_bytes, max_byte, min_code_size_of,
    netscape_bytes, pow2, size_class, u16_le, ExtensionData,
};

verus! {

/// The number of length-prefixed sub-blocks a payload of `len`
/// bytes is split into: `ceil(len / 255)`.
pub open spec fn sub_block_count(len: int) -> int {
    (len + 254) / 255
}

/// The size class is the documented bucket: it stays within 0..=7,
/// its bucket of `2^(class+1)` slots holds the colors, and for every
/// class above 0 the next smaller bucket would not.
pub proof fn lemma_size_class_bucket(num_colors: int)
    requires
        0 <= num_colors <= 256,
    ensures
        size_class(num_colors) <= 7,
        num_colors <= pow2((size_class(num_colors) + 1) as nat),
        size_class(num_colors) > 0 ==> pow2(size_class(num_colors) as nat) < num_colors,
{
    reveal_with_fuel(pow2, 9);
}

/// A serialized color table fills its size-class bucket exactly:
/// `3 * 2^(class+1)` bytes, whatever length the input table had.
pub proof fn lemma_color_table_bucket_length(table: Seq<u8>)
    requires
        table.len() <= 3 * 256,
    ensures
        color_table_bytes(table).len() == 3 * pow2(
            (size_class(table.len() as int / 3) + 1) as nat,
        ),
{
    reveal_with_fuel(pow2, 9);
    let n = table.len() as int / 3;
    assert(3 * n <= table.len());
    assert(table.take(3 * n).len() == 3 * n);
}

/// An explicit repeat count writes nothing exactly when it is zero;
/// otherwise, and for the infinite variant, the fixed 19-byte
/// NETSCAPE block is emitted, whose bytes 16 and 17 carry the
/// little-endian repeat count — a literal zero for the infinite
/// variant.
pub proof fn lemma_loop_extension(repeat: u16)
    ensures
        (extension_bytes(ExtensionData::Repetitions(repeat)) == Seq::<u8>::empty()) <==> repeat
            == 0,
        repeat != 0 ==> extension_bytes(ExtensionData::Repetitions(repeat)) == netscape_bytes(
            repeat,
        ),
        extension_bytes(ExtensionData::InfiniteRepetitions) == netscape_bytes(0),
        netscape_bytes(repeat).len() == 19,
        netscape_bytes(repeat).subrange(16, 18) == u16_le(repeat),
{
    assert(netscape_bytes(repeat).subrange(16, 18) =~= u16_le(repeat));
    if repeat != 0 {
        assert(extension_bytes(ExtensionData::Repetitions(repeat)).len() == 19);
    }
}

/// A well-formed sub-block sequence: each block starts with a
/// length prefix in `1..=255` and carries exactly that many bytes,
/// with nothing left over.
pub open spec fn sub_blocks_wf(blocks: Seq<u8>) -> bool
    decreases blocks.len(),
{
    blocks.len() == 0 || (1 <= blocks[0] && blocks.len() >= 1 + blocks[0] as int && sub_blocks_wf(
        blocks.skip(1 + blocks[0] as int),
    ))
}

/// Sub-block chunking round trip: a payload of length `L` becomes
/// `ceil(L / 255)` well-formed length-prefixed blocks carrying `L`
/// bytes in all, and parsing the blocks back yields the payload.
pub proof fn lemma_sub_block_chunking(data: Seq<u8>)
    ensures
        chunked(data).len() == data.len() + sub_block_count(data.len() as int),
        sub_blocks_wf(chunked(data)),
        dechunk(chunked(data)) == data,
    decreases data.len(),
{
    if data.len() == 0 {
        assert(dechunk(chunked(data)) =~= data);
    } else if data.len() >= 255 {
        lemma_sub_block_chunking(data.skip(255));
        let blocks = chunked(data);
        assert(blocks == seq![255u8] + data.take(255) + chunked(data.skip(255)));
        assert(blocks[0] == 255);
        assert(blocks.subrange(1, 256) =~= data.take(255));
        assert(blocks.skip(256) =~= chunked(data.skip(255)));
        assert(dechunk(blocks) == data.take(255) + dechunk(chunked(data.skip(255))));
        assert(data.take(255) + data.skip(255) =~= data);
        assert(sub_blocks_wf(blocks));
    } else {
        let blocks = chunked(data);
        assert(blocks == seq![data.len() as u8] + data);
        assert(blocks[0] as int == data.len());
        assert(blocks.subrange(1, 1 + data.len() as int) =~= data);
        assert(blocks.skip(1 + data.len() as int) =~= Seq::<u8>::empty());
        assert(dechunk(Seq::<u8>::empty()) =~= Seq::<u8>::empty());
        assert(dechunk(blocks) == blocks.subrange(1, 1 + data.len() as int) + dechunk(
            blocks.skip(1 + data.len() as int),
        ));
        assert(dechunk(blocks) =~= data);
        assert(sub_blocks_wf(blocks.skip(1 + data.len() as int)));
        assert(sub_blocks_wf(blocks));
    }
}

/// An all-zero sequence has no byte above zero.
proof fn lemma_max_byte_all_zero(s: Seq<u8>)
    requires
        forall|i: int| 0 <= i < s.len() ==> s[i] == 0,
    ensures
        max_byte(s) == 0,
    decreases s.len(),
{
    if s.len() > 0 {
        assert(forall|i: int| 0 <= i < s.drop_last().len() ==> s.drop_last()[i] == s[i]);
        lemma_max_byte_all_zero(s.drop_last());
    }
}

/// Minimum code size floor: a raster whose largest index is zero
/// still gets a minimum code size of 2, never 1.
pub proof fn lemma_min_code_size_floor(data: Seq<u8>)
    requires
        forall|i: int| 0 <= i < data.len() ==> data[i] == 0,
    ensures
        min_code_size_of(data) == 2,
{
    lemma_max_byte_all_zero(data);
}

} // verus!
