//! GPU parameter upload: once per frame, after every producer has run,
//! each target's region list and blur settings are mirrored into a
//! GPU-style uniform snapshot in the layout the compositing passes read.

use vstd::prelude::*;

use crate::camera::BlurRegionsCamera;
use crate::camera::CameraView;
use crate::geom::Region;

verus! {

/// The uniform-buffer image of one target: the blur strength, the live
/// count that bounds the shader's iteration, and every region slot — the
/// upload is total, never skipping slots, because the shader reads
/// fixed-size storage.
pub struct BlurRegionsUniform {
    pub circle_of_confusion: u32,
    pub current_regions_count: u32,
    pub regions: Vec<Region>,
}

impl BlurRegionsUniform {
    /// The snapshot is internally consistent: the live count bounds the
    /// slots and every slot is well formed.
    pub open spec fn wf(self) -> bool {
        &&& self.current_regions_count <= self.regions@.len()
        &&& forall|i: int| 0 <= i < self.regions@.len() ==> (#[trigger] self.regions@[i]).wf()
    }

    /// The snapshot mirrors the camera exactly: same settings, same count,
    /// every slot copied, unused slots still the offscreen sentinel.
    pub open spec fn mirrors(self, cam: CameraView) -> bool {
        &&& self.circle_of_confusion == cam.settings.circle_of_confusion
        &&& self.current_regions_count == cam.count
        &&& self.regions@ == cam.slots
    }
}

/// Snapshot one target's region list and settings for the GPU. Total and
/// deterministic, so re-running it for the same frame state writes the
/// identical snapshot.
pub fn prepare_uniform(camera: &BlurRegionsCamera) -> (out: BlurRegionsUniform)
    requires
        camera@.wf(),
    ensures
        out.mirrors(camera@),
        out.wf(),
{
    let count = camera.count();
    let capacity = camera.capacity();
    let mut regions: Vec<Region> = Vec::new();
    let mut i: usize = 0;
    while i < capacity
        invariant
            i <= capacity,
            camera@.wf(),
            capacity == camera@.capacity,
            regions@.len() == i,
            forall|j: int| 0 <= j < i ==> regions@[j] == camera@.slots[j],
        decreases capacity - i,
    {
        regions.push(camera.region_at(i));
        i = i + 1;
    }
    proof {
        assert(regions@ =~= camera@.slots);
    }
    BlurRegionsUniform {
        circle_of_confusion: camera.settings().circle_of_confusion,
        current_regions_count: count as u32,
        regions,
    }
}

} // verus!
