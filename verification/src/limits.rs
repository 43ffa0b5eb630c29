use vstd::prelude::*;

verus! {

/// Whether the integer limits of a widget configuration are usable: the page and platform
/// payload limits hold at least four bytes, the surface and realization limits are not zero,
/// every text payload limit fits within the pending-byte budget and in `usize`, the object
/// residency accepts at least one pending request, and its resident counts stay within its
/// pending counts.
#[allow(clippy::too_many_arguments)]
pub fn limits_valid(
    page_bytes: u64,
    platform_bytes: u64,
    max_surface_bytes: usize,
    max_surface_items: usize,
    max_realization_work_per_frame: usize,
    geometry_page_bytes: u64,
    clipboard_page_bytes: u64,
    segmentation_page_bytes: u64,
    max_pending_bytes: u64,
    object_max_pending_requests: usize,
    object_max_resident_objects: usize,
    object_max_pending_objects: usize,
    object_max_resident_bytes: usize,
    object_max_pending_bytes: usize,
) -> (r: bool)
    ensures
        r == {
            &&& page_bytes >= 4
            &&& platform_bytes >= 4
            &&& max_surface_bytes != 0
            &&& max_surface_items != 0
            &&& max_realization_work_per_frame != 0
            &&& geometry_page_bytes <= max_pending_bytes
            &&& clipboard_page_bytes <= max_pending_bytes
            &&& segmentation_page_bytes <= max_pending_bytes
            &&& page_bytes <= max_pending_bytes
            &&& platform_bytes <= max_pending_bytes
            &&& page_bytes <= usize::MAX
            &&& platform_bytes <= usize::MAX
            &&& geometry_page_bytes <= usize::MAX
            &&& max_pending_bytes <= usize::MAX
            &&& clipboard_page_bytes <= usize::MAX
            &&& segmentation_page_bytes <= usize::MAX
            &&& object_max_pending_requests >= 1
            &&& object_max_resident_objects <= object_max_pending_objects
            &&& object_max_resident_bytes <= object_max_pending_bytes
        },
{
    let word = usize::MAX as u64;
    !(page_bytes < 4 || platform_bytes < 4 || max_surface_bytes == 0 || max_surface_items == 0
        || max_realization_work_per_frame == 0 || geometry_page_bytes > max_pending_bytes
        || clipboard_page_bytes > max_pending_bytes || segmentation_page_bytes
        > max_pending_bytes || page_bytes > max_pending_bytes || platform_bytes
        > max_pending_bytes || page_bytes > word || platform_bytes > word || geometry_page_bytes
        > word || max_pending_bytes > word || clipboard_page_bytes > word
        || segmentation_page_bytes > word || object_max_pending_requests < 1
        || object_max_resident_objects > object_max_pending_objects || object_max_resident_bytes
        > object_max_pending_bytes)
}

} // verus!
