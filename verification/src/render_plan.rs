use vstd::prelude::*;

verus! {

/// What to do with the GPU point buffer for a new point cloud.
#[derive(PartialEq, Eq, Structural, Clone, Copy, Debug)]
pub enum UploadPlan {
    /// The cloud is empty: draw no points and leave the buffer alone.
    Clear,
    /// Write the points; first replace the buffer by one of `grow_to` bytes
    /// when it is too small.  `num_points` is the count drawn.
    Write { grow_to: Option<u64>, num_points: u32 },
}

/// Plans the upload of `count` points of `point_bytes` bytes each into a
/// buffer of `capacity` bytes: the buffer grows only when the points do not
/// fit, and the drawn count is the point count as a `u32`.
pub fn plan_point_upload(count: usize, point_bytes: u64, capacity: u64) -> (r: UploadPlan)
    requires
        count * point_bytes <= u64::MAX,
    ensures
        count == 0 ==> r == UploadPlan::Clear,
        count > 0 ==> r == (UploadPlan::Write {
            grow_to: if count * point_bytes > capacity {
                Some((count * point_bytes) as u64)
            } else {
                None
            },
            num_points: count as u32,
        }),
{
    if count == 0 {
        return UploadPlan::Clear;
    }
    let size: u64 = (count as u64) * point_bytes;
    let grow_to = if size > capacity {
        Some(size)
    } else {
        None
    };
    UploadPlan::Write { grow_to, num_points: count as u32 }
}

/// A window size the drawing surface is reconfigured for: both sides must
/// be positive (a minimised window keeps the old size).
pub fn accepts_surface_size(width: u32, height: u32) -> (r: bool)
    ensures
        r == (width > 0 && height > 0),
{
    width > 0 && height > 0
}

} // verus!
