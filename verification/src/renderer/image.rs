use vstd::prelude::*;

verus! {

/// Order in which layered, mipmapped texture data is laid out.
/// Irrelevant for data with a single layer and no mipmaps.
#[derive(Clone, Copy, Debug, PartialEq, Eq, Structural, Hash)]
pub enum DataOrder {
    /// All mip levels of a layer, then the next layer.
    LayerMajor,
    /// All layers of a mip level, then the next level.
    MipMajor,
}

impl Default for DataOrder {
    fn default() -> (r: DataOrder)
        ensures
            r == DataOrder::LayerMajor,
    {
        DataOrder::LayerMajor
    }
}

/// Whether a file path names a zstd-compressed DDS texture: the name
/// ends in `.dds.zst`.
pub fn is_compressed_dds(file_name: &str) -> (r: bool)
    ensures
        r == spec_is_compressed_dds(file_name@),
{
    let n = file_name.unicode_len();
    if n < 8 {
        return false;
    }
    let suffix = file_name.substring_char(n - 8, n);
    let expected = ".dds.zst";
    let ne = expected.unicode_len();
    if ne != 8 {
        return false;
    }
    let mut i: usize = 0;
    while i < 8
        invariant
            n == file_name@.len(),
            n >= 8,
            suffix@ == file_name@.subrange(n as int - 8, n as int),
            ne == expected@.len(),
            ne == 8,
            expected@ == ".dds.zst"@,
            i <= 8,
            forall|j: int| 0 <= j < i ==> suffix@[j] == expected@[j],
        decreases 8 - i,
    {
        if suffix.get_char(i) != expected.get_char(i) {
            assert(!spec_is_compressed_dds(file_name@));
            return false;
        }
        i += 1;
    }
    proof {
        assert(suffix@ =~= ".dds.zst"@);
    }
    true
}

/// A path names a zstd-compressed DDS texture when it ends in
/// `.dds.zst`.
pub open spec fn spec_is_compressed_dds(name: Seq<char>) -> bool {
    name.len() >= 8 && name.subrange(name.len() - 8, name.len() as int) == ".dds.zst"@
}

} // verus!
