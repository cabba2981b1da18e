//! The render target's bounded blur-region list and its submission API.
//!
//! A [`BlurRegionsCamera`] owns one fixed-capacity region list and one
//! [`BlurSettings`] value. Producers append through [`BlurRegionsCamera::blur`]
//! and its variants; the frame lifecycle empties every list once per frame
//! through [`clear_blur_regions`] before any producer runs.

use vstd::prelude::*;

use crate::geom::CornerRadii;
use crate::geom::Rect;
use crate::geom::Region;

verus! {

/// Region-list capacity of a camera built with [`Default::default`].
pub const DEFAULT_MAX_BLUR_REGIONS_COUNT: usize = 20;

/// Marker attached by an application to a structured-UI element to request a
/// blur region behind it. The UI synchronizer consumes only elements so
/// marked.
#[derive(Clone, Copy, Default)]
pub struct BlurRegion;

/// Per-target blur tunables: the diameter, in physical pixels, of the circle
/// of confusion around each blurred pixel. A larger diameter blurs more.
#[derive(Clone, Copy, Debug, PartialEq, Eq, Structural)]
pub struct BlurSettings {
    pub circle_of_confusion: u32,
}

/// What a single region submission did.
#[derive(Clone, Copy, Debug, PartialEq, Eq, Structural)]
pub enum SubmitOutcome {
    /// The region was appended to the list.
    Stored,
    /// The list was already at capacity; the call changed nothing. The
    /// caller should surface a non-fatal warning diagnostic.
    RejectedFull,
}

/// Mathematical state of a [`BlurRegionsCamera`]: its settings, its fixed
/// capacity, and the stored region slots of which the first `count` are live.
pub ghost struct CameraView {
    pub settings: BlurSettings,
    pub capacity: nat,
    pub count: nat,
    pub slots: Seq<Region>,
}

impl CameraView {
    /// Well-formedness: the slot array has exactly `capacity` entries, at
    /// most all of them live, every slot well formed and every unused slot
    /// holding the offscreen sentinel.
    pub open spec fn wf(self) -> bool {
        &&& 1 <= self.capacity <= u32::MAX
        &&& self.count <= self.capacity
        &&& self.slots.len() == self.capacity
        &&& forall|i: int| 0 <= i < self.slots.len() ==> (#[trigger] self.slots[i]).wf()
        &&& forall|i: int|
            self.count <= i < self.slots.len() ==> self.slots[i] == Region::offscreen_spec()
    }

    /// The live regions, in submission order.
    pub open spec fn active(self) -> Seq<Region> {
        self.slots.take(self.count as int)
    }

    /// A freshly constructed target state: empty list, all slots sentinel.
    pub open spec fn fresh(capacity: nat, settings: BlurSettings) -> CameraView {
        CameraView {
            settings,
            capacity,
            count: 0,
            slots: Seq::new(capacity, |i: int| Region::offscreen_spec()),
        }
    }

    /// State after one submission: appended when there is room, unchanged
    /// when the list is full.
    pub open spec fn submit(self, reg: Region) -> CameraView {
        if self.count < self.capacity {
            CameraView {
                count: self.count + 1,
                slots: self.slots.update(self.count as int, reg),
                ..self
            }
        } else {
            self
        }
    }

    /// Outcome of one submission.
    pub open spec fn submit_outcome(self, reg: Region) -> SubmitOutcome {
        if self.count < self.capacity {
            SubmitOutcome::Stored
        } else {
            SubmitOutcome::RejectedFull
        }
    }

    /// State after submitting a whole sequence, in order.
    pub open spec fn submit_all(self, regs: Seq<Region>) -> CameraView
        decreases regs.len(),
    {
        if regs.len() == 0 {
            self
        } else {
            self.submit_all(regs.drop_last()).submit(regs.last())
        }
    }

    /// State after the frame lifecycle reset: no live regions, every slot
    /// back to the sentinel, settings and capacity untouched.
    pub open spec fn cleared(self) -> CameraView {
        CameraView {
            count: 0,
            slots: Seq::new(self.slots.len(), |i: int| Region::offscreen_spec()),
            ..self
        }
    }
}

/// The regions a sequence of plain rectangles submits: square corners.
pub open spec fn plain_regions(rects: Seq<Rect>) -> Seq<Region> {
    rects.map_values(|r: Rect| Region { rect: r, radii: CornerRadii::zero_spec() })
}

/// The regions a sequence of (rectangle, radii) pairs submits.
pub open spec fn rounded_regions(entries: Seq<(Rect, CornerRadii)>) -> Seq<Region> {
    entries.map_values(|e: (Rect, CornerRadii)| Region { rect: e.0, radii: e.1 })
}

/// One submission preserves well-formedness.
pub proof fn lemma_submit_wf(v: CameraView, reg: Region)
    requires
        v.wf(),
        reg.wf(),
    ensures
        v.submit(reg).wf(),
{
    if v.count < v.capacity {
        let w = v.submit(reg);
        assert forall|i: int| 0 <= i < w.slots.len() implies (#[trigger] w.slots[i]).wf() by {
            if i != v.count as int {
                assert(w.slots[i] == v.slots[i]);
            }
        }
    }
}

/// One submission with room appends to the live prefix; one against a full
/// list changes nothing and reports the rejection.
pub proof fn lemma_submit_active(v: CameraView, reg: Region)
    requires
        v.wf(),
    ensures
        v.count < v.capacity ==> v.submit(reg).active() == v.active().push(reg)
            && v.submit(reg).count == v.count + 1
            && v.submit_outcome(reg) == SubmitOutcome::Stored,
        v.count == v.capacity ==> v.submit(reg) == v
            && v.submit_outcome(reg) == SubmitOutcome::RejectedFull,
{
    if v.count < v.capacity {
        assert(v.submit(reg).active() =~= v.active().push(reg));
    }
}

/// Submitting a sequence of well-formed regions preserves well-formedness.
pub proof fn lemma_submit_all_wf(v: CameraView, regs: Seq<Region>)
    requires
        v.wf(),
        forall|i: int| 0 <= i < regs.len() ==> (#[trigger] regs[i]).wf(),
    ensures
        v.submit_all(regs).wf(),
    decreases regs.len(),
{
    if regs.len() > 0 {
        lemma_submit_all_wf(v, regs.drop_last());
        lemma_submit_wf(v.submit_all(regs.drop_last()), regs.last());
    }
}

/// Submitting one more region after a sequence is the sequence's state
/// submitted once more.
pub proof fn lemma_submit_all_push(v: CameraView, regs: Seq<Region>, reg: Region)
    ensures
        v.submit_all(regs.push(reg)) == v.submit_all(regs).submit(reg),
{
    assert(regs.push(reg).drop_last() =~= regs);
    assert(regs.push(reg).last() == reg);
}

/// The count law: submissions are counted one by one until the list is
/// full, and every further submission leaves the count at the capacity.
pub proof fn lemma_submission_count(v: CameraView, regs: Seq<Region>)
    ensures
        v.submit_all(regs).capacity == v.capacity,
        v.submit_all(regs).settings == v.settings,
        v.submit_all(regs).count == if v.count + regs.len() <= v.capacity {
            v.count + regs.len()
        } else if v.count <= v.capacity {
            v.capacity
        } else {
            v.count
        },
    decreases regs.len(),
{
    if regs.len() > 0 {
        lemma_submission_count(v, regs.drop_last());
        let w = v.submit_all(regs.drop_last());
        assert(v.submit_all(regs) == w.submit(regs.last()));
        assert(regs.drop_last().len() == regs.len() - 1);
    }
}

/// The frame-fill law: starting from an empty list, submitting at most a
/// capacity's worth of regions stores exactly those regions, in
/// submission order.
pub proof fn lemma_fresh_submissions_all_live(v: CameraView, regs: Seq<Region>)
    requires
        v.wf(),
        v.count == 0,
        regs.len() <= v.capacity,
        forall|i: int| 0 <= i < regs.len() ==> (#[trigger] regs[i]).wf(),
    ensures
        v.submit_all(regs).active() == regs,
    decreases regs.len(),
{
    if regs.len() > 0 {
        lemma_fresh_submissions_all_live(v, regs.drop_last());
        let w = v.submit_all(regs.drop_last());
        lemma_submit_all_wf(v, regs.drop_last());
        lemma_submission_count(v, regs.drop_last());
        lemma_submit_active(w, regs.last());
        assert(regs.drop_last().push(regs.last()) =~= regs);
    }
}

/// The overflow law: once the list is full, submitting any further sequence
/// changes nothing at all.
pub proof fn lemma_full_submissions_ignored(v: CameraView, regs: Seq<Region>)
    requires
        v.count == v.capacity,
    ensures
        v.submit_all(regs) == v,
    decreases regs.len(),
{
    if regs.len() > 0 {
        lemma_full_submissions_ignored(v, regs.drop_last());
    }
}

/// Indicates that a render target draws blur regions, and carries the
/// target's own bounded region list plus its blur settings.
pub struct BlurRegionsCamera {
    settings: BlurSettings,
    capacity: usize,
    count: usize,
    regions: Vec<Region>,
}

impl View for BlurRegionsCamera {
    type V = CameraView;

    closed spec fn view(&self) -> CameraView {
        CameraView {
            settings: self.settings,
            capacity: self.capacity as nat,
            count: self.count as nat,
            slots: self.regions@,
        }
    }
}

impl BlurRegionsCamera {
    /// Build a target with the given region capacity and settings. The
    /// capacity is fixed for the camera's lifetime.
    pub fn new(capacity: usize, settings: BlurSettings) -> (out: BlurRegionsCamera)
        requires
            1 <= capacity <= u32::MAX,
        ensures
            out@ == CameraView::fresh(capacity as nat, settings),
            out@.wf(),
    {
        let mut regions: Vec<Region> = Vec::new();
        let mut i: usize = 0;
        while i < capacity
            invariant
                i <= capacity,
                regions@.len() == i,
                forall|j: int| 0 <= j < i ==> regions@[j] == Region::offscreen_spec(),
            decreases capacity - i,
        {
            regions.push(Region::offscreen());
            i = i + 1;
        }
        let out = BlurRegionsCamera { settings, capacity, count: 0, regions };
        proof {
            assert(out@.slots =~= CameraView::fresh(capacity as nat, settings).slots);
        }
        out
    }

    /// Append one plain rectangular blur region.
    pub fn blur(&mut self, rect: Rect) -> (outcome: SubmitOutcome)
        requires
            old(self)@.wf(),
            rect.wf(),
        ensures
            final(self)@ == old(self)@.submit(
                Region { rect, radii: CornerRadii::zero_spec() },
            ),
            outcome == old(self)@.submit_outcome(
                Region { rect, radii: CornerRadii::zero_spec() },
            ),
            final(self)@.wf(),
    {
        self.rounded_blur(rect, CornerRadii::zero())
    }

    /// Append one blur region with per-corner rounding. When the list is
    /// already at capacity the call is a no-op and reports
    /// [`SubmitOutcome::RejectedFull`], so the caller can emit a warning;
    /// the regions already accepted are never disturbed.
    pub fn rounded_blur(&mut self, rect: Rect, radii: CornerRadii) -> (outcome: SubmitOutcome)
        requires
            old(self)@.wf(),
            rect.wf(),
            radii.wf(),
        ensures
            final(self)@ == old(self)@.submit(Region { rect, radii }),
            outcome == old(self)@.submit_outcome(Region { rect, radii }),
            final(self)@.wf(),
    {
        proof {
            lemma_submit_wf(old(self)@, Region { rect, radii });
        }
        if self.count == self.capacity {
            return SubmitOutcome::RejectedFull;
        }
        self.regions[self.count] = Region { rect, radii };
        self.count = self.count + 1;
        SubmitOutcome::Stored
    }

    /// Append one plain region per rectangle, in order, stopping silently at
    /// capacity.
    pub fn blur_all(&mut self, rects: &Vec<Rect>)
        requires
            old(self)@.wf(),
            forall|i: int| 0 <= i < rects@.len() ==> (#[trigger] rects@[i]).wf(),
        ensures
            final(self)@ == old(self)@.submit_all(plain_regions(rects@)),
            final(self)@.wf(),
    {
        let mut i: usize = 0;
        while i < rects.len()
            invariant
                i <= rects@.len(),
                forall|j: int| 0 <= j < rects@.len() ==> (#[trigger] rects@[j]).wf(),
                self@ == old(self)@.submit_all(plain_regions(rects@.take(i as int))),
                self@.wf(),
            decreases rects@.len() - i,
        {
            proof {
                let pre = plain_regions(rects@.take(i as int));
                let post = plain_regions(rects@.take(i + 1int));
                assert(post.drop_last() =~= pre);
                assert(post.last() == (Region {
                    rect: rects@[i as int],
                    radii: CornerRadii::zero_spec(),
                }));
            }
            self.blur(rects[i]);
            i = i + 1;
        }
        proof {
            assert(rects@.take(rects@.len() as int) =~= rects@);
        }
    }

    /// Append one rounded region per (rectangle, radii) pair, in order,
    /// stopping silently at capacity.
    pub fn rounded_blur_all(&mut self, entries: &Vec<(Rect, CornerRadii)>)
        requires
            old(self)@.wf(),
            forall|i: int|
                0 <= i < entries@.len() ==> (#[trigger] entries@[i]).0.wf() && entries@[i].1.wf(),
        ensures
            final(self)@ == old(self)@.submit_all(rounded_regions(entries@)),
            final(self)@.wf(),
    {
        let mut i: usize = 0;
        while i < entries.len()
            invariant
                i <= entries@.len(),
                forall|j: int|
                    0 <= j < entries@.len() ==> (#[trigger] entries@[j]).0.wf()
                        && entries@[j].1.wf(),
                self@ == old(self)@.submit_all(rounded_regions(entries@.take(i as int))),
                self@.wf(),
            decreases entries@.len() - i,
        {
            proof {
                let pre = rounded_regions(entries@.take(i as int));
                let post = rounded_regions(entries@.take(i + 1int));
                assert(post.drop_last() =~= pre);
                assert(post.last() == (Region {
                    rect: entries@[i as int].0,
                    radii: entries@[i as int].1,
                }));
            }
            let entry = entries[i];
            self.rounded_blur(entry.0, entry.1);
            i = i + 1;
        }
        proof {
            assert(entries@.take(entries@.len() as int) =~= entries@);
        }
    }

    /// The frame lifecycle reset: ends the lifetime of every region by
    /// emptying the list and restoring the sentinel in every slot.
    pub fn clear(&mut self)
        requires
            old(self)@.wf(),
        ensures
            final(self)@ == old(self)@.cleared(),
            final(self)@.wf(),
    {
        self.count = 0;
        let mut i: usize = 0;
        let len = self.regions.len();
        while i < len
            invariant
                i <= len,
                self.regions@.len() == len,
                forall|j: int| 0 <= j < i ==> self.regions@[j] == Region::offscreen_spec(),
                forall|j: int| i <= j < len ==> self.regions@[j] == old(self).regions@[j],
                self.count == 0,
                self.settings == old(self).settings,
                self.capacity == old(self).capacity,
            decreases len - i,
        {
            self.regions[i] = Region::offscreen();
            i = i + 1;
        }
        proof {
            assert(self@.slots =~= old(self)@.cleared().slots);
        }
    }

    /// Number of live regions.
    pub fn count(&self) -> (n: usize)
        ensures
            n == self@.count,
    {
        self.count
    }

    /// Fixed region capacity of this target.
    pub fn capacity(&self) -> (n: usize)
        ensures
            n == self@.capacity,
    {
        self.capacity
    }

    /// Read back one stored region slot.
    pub fn region_at(&self, i: usize) -> (reg: Region)
        requires
            i < self@.slots.len(),
        ensures
            reg == self@.slots[i as int],
    {
        self.regions[i]
    }

    /// Current blur settings.
    pub fn settings(&self) -> (s: BlurSettings)
        ensures
            s == self@.settings,
    {
        self.settings
    }

    /// Replace the blur settings; takes effect at the next frame's upload.
    pub fn set_settings(&mut self, settings: BlurSettings)
        ensures
            final(self)@ == (CameraView { settings, ..old(self)@ }),
    {
        self.settings = settings;
    }
}

impl Default for BlurRegionsCamera {
    /// A target with the default capacity and a moderate blur strength.
    fn default() -> (out: BlurRegionsCamera)
        ensures
            out@ == CameraView::fresh(
                DEFAULT_MAX_BLUR_REGIONS_COUNT as nat,
                BlurSettings { circle_of_confusion: 100 },
            ),
            out@.wf(),
    {
        BlurRegionsCamera::new(
            DEFAULT_MAX_BLUR_REGIONS_COUNT,
            BlurSettings { circle_of_confusion: 100 },
        )
    }
}

/// The camera type most applications use: built by [`Default::default`]
/// with the default region capacity.
pub type DefaultBlurRegionsCamera = BlurRegionsCamera;

/// One render target known to the frame scheduler: a stable identifier, the
/// default-target mark used by overlay redirection, and the camera itself.
pub struct CameraEntry {
    pub id: u64,
    pub is_default: bool,
    pub camera: BlurRegionsCamera,
}

/// The frame lifecycle: reset every target's region list exactly once,
/// strictly before any producer runs in the frame. Afterwards every target
/// holds zero live regions, whatever it held before.
pub fn clear_blur_regions(cameras: &mut Vec<CameraEntry>)
    requires
        forall|i: int|
            0 <= i < old(cameras)@.len() ==> (#[trigger] old(cameras)@[i]).camera@.wf(),
    ensures
        final(cameras)@.len() == old(cameras)@.len(),
        forall|i: int|
            0 <= i < final(cameras)@.len() ==> {
                let entry = #[trigger] final(cameras)@[i];
                &&& entry.id == old(cameras)@[i].id
                &&& entry.is_default == old(cameras)@[i].is_default
                &&& entry.camera@ == old(cameras)@[i].camera@.cleared()
                &&& entry.camera@.wf()
                &&& entry.camera@.count == 0
            },
{
    let mut i: usize = 0;
    while i < cameras.len()
        invariant
            i <= cameras@.len(),
            cameras@.len() == old(cameras)@.len(),
            forall|j: int|
                0 <= j < cameras@.len() ==> (#[trigger] old(cameras)@[j]).camera@.wf(),
            forall|j: int|
                i <= j < cameras@.len() ==> (#[trigger] cameras@[j]).camera@
                    == old(cameras)@[j].camera@ && cameras@[j].id == old(cameras)@[j].id
                    && cameras@[j].is_default == old(cameras)@[j].is_default,
            forall|j: int|
                0 <= j < i ==> {
                    let entry = #[trigger] cameras@[j];
                    &&& entry.id == old(cameras)@[j].id
                    &&& entry.is_default == old(cameras)@[j].is_default
                    &&& entry.camera@ == old(cameras)@[j].camera@.cleared()
                    &&& entry.camera@.wf()
                },
        decreases cameras@.len() - i,
    {
        let ghost prev = cameras@;
        cameras[i].camera.clear();
        proof {
            assert(cameras@.len() == prev.len());
            assert(forall|j: int| 0 <= j < prev.len() && j != i ==> cameras@[j] == prev[j]);
            assert(cameras@[i as int].id == prev[i as int].id);
            assert(cameras@[i as int].camera@ == prev[i as int].camera@.cleared());
        }
        i = i + 1;
    }
}

} // verus!
