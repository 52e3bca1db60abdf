use gfx_hal::memory::Properties;
use vstd::prelude::*;

verus! {

/// Whether memory with property bits `properties` is visible to the CPU.
///
/// Calls `Properties::contains` of the graphics library with
/// `Properties::CPU_VISIBLE`, whose bit is `0x2`.
#[verifier::external_body]
pub fn cpu_visible(properties: u16) -> (visible: bool)
    ensures
        visible == (properties & 0x2u16 == 0x2u16),
{
    Properties::from_bits_truncate(properties).contains(Properties::CPU_VISIBLE)
}

/// Whether memory type `j`, with property bits `properties[j]`, can hold an
/// upload buffer whose requirements allow the types set in `type_mask`.
pub open spec fn upload_candidate(type_mask: u64, properties: Seq<u16>, j: int) -> bool {
    &&& type_mask & (1u64 << (j as u64)) != 0
    &&& properties[j] & 0x2u16 == 0x2u16
}

/// Finds the memory type for an upload buffer: the first memory type that the
/// buffer's requirements allow (its bit is set in `type_mask`) and that the
/// CPU can see. `properties` holds the property bits of each memory type of
/// the device.
///
/// A mask has 64 bits, so the scan never looks past the 64th type: where the
/// device has more types, one of the first 64 must be a candidate.
pub fn find_upload_memory_type(type_mask: u64, properties: &Vec<u16>) -> (id: Option<usize>)
    requires
        properties@.len() > 64 ==> exists|j: int|
            0 <= j < 64 && #[trigger] upload_candidate(type_mask, properties@, j),
    ensures
        id matches Some(i) ==> i < properties@.len() && upload_candidate(
            type_mask,
            properties@,
            i as int,
        ),
        forall|j: int|
            0 <= j < properties@.len() && (id matches Some(i) ==> j < i) ==> !#[trigger] upload_candidate(
                type_mask,
                properties@,
                j,
            ),
{
    let mut i: usize = 0;
    while i < properties.len()
        invariant
            i <= properties@.len(),
            properties@.len() > 64 ==> exists|j: int|
                0 <= j < 64 && #[trigger] upload_candidate(type_mask, properties@, j),
            forall|j: int| 0 <= j < i ==> !#[trigger] upload_candidate(type_mask, properties@, j),
        decreases properties@.len() - i,
    {
        assert(i < 64) by {
            if properties@.len() > 64 && i >= 64 {
                let w = choose|j: int| 0 <= j < 64 && #[trigger] upload_candidate(type_mask, properties@, j);
                assert(upload_candidate(type_mask, properties@, w));
            }
        }
        let supported = type_mask & (1u64 << (i as u64)) != 0;
        if supported && cpu_visible(properties[i]) {
            return Some(i);
        }
        i = i + 1;
    }
    None
}

/// Size in bytes of a buffer of `count` elements of `element_size` bytes.
pub fn buffer_size(element_size: u64, count: u64) -> (size: u64)
    requires
        element_size * count <= u64::MAX,
    ensures
        size == element_size * count,
{
    element_size * count
}

} // verus!
