//! The overlay-window producer: immediate-mode GUI windows buffer their
//! blur regions into a per-context [`EguiBlurRegions`] during the overlay
//! pass, and a once-per-frame reconciliation drains every buffered region
//! into the addressed render target's list.
//!
//! Overlay windows commit their geometry one scheduling tick apart from the
//! main render pass, so the region built for a window uses the window's
//! previous-frame committed rectangle when one exists and falls back to the
//! current-frame rectangle only on the window's first frame.

use vstd::prelude::*;

use crate::camera::lemma_submit_all_push;
use crate::camera::CameraEntry;
use crate::camera::SubmitOutcome;
use crate::camera::DEFAULT_MAX_BLUR_REGIONS_COUNT;
use crate::geom::CornerRadii;
use crate::geom::Rect;
use crate::geom::Region;

verus! {

/// Where a buffered overlay region is to land: the unique target marked
/// default, or the target with an explicit identifier.
#[derive(Clone, Copy, Debug, PartialEq, Eq, Structural)]
pub enum EguiBlurTarget {
    DefaultCamera,
    Entity(u64),
}

/// One overlay region waiting for reconciliation, with its redirection.
#[derive(Clone, Copy, Debug, PartialEq, Eq, Structural)]
pub struct PendingBlur {
    pub target: EguiBlurTarget,
    pub region: Region,
}

/// Mathematical state of an [`EguiBlurRegions`] buffer.
pub ghost struct OverlayView {
    pub capacity: nat,
    pub pending: Seq<PendingBlur>,
}

impl OverlayView {
    /// The buffer holds at most `capacity` well-formed pending regions.
    pub open spec fn wf(self) -> bool {
        &&& 1 <= self.capacity <= u32::MAX
        &&& self.pending.len() <= self.capacity
        &&& forall|i: int|
            0 <= i < self.pending.len() ==> (#[trigger] self.pending[i]).region.wf()
    }

    /// State after buffering one pending region: appended when there is
    /// room, unchanged when the buffer is full.
    pub open spec fn buffer(self, entry: PendingBlur) -> OverlayView {
        if self.pending.len() < self.capacity {
            OverlayView { pending: self.pending.push(entry), ..self }
        } else {
            self
        }
    }

    /// Outcome of buffering one pending region.
    pub open spec fn buffer_outcome(self, entry: PendingBlur) -> SubmitOutcome {
        if self.pending.len() < self.capacity {
            SubmitOutcome::Stored
        } else {
            SubmitOutcome::RejectedFull
        }
    }
}

/// The per-overlay-context producer buffer: every window of one overlay
/// context stashes its pending region here, keyed by the context's one
/// shared slot, until [`extract_egui_blurs`] reconciles them into the
/// addressed targets.
pub struct EguiBlurRegions {
    capacity: usize,
    pending: Vec<PendingBlur>,
}

impl View for EguiBlurRegions {
    type V = OverlayView;

    closed spec fn view(&self) -> OverlayView {
        OverlayView { capacity: self.capacity as nat, pending: self.pending@ }
    }
}

impl EguiBlurRegions {
    /// An empty buffer that accepts at most `capacity` regions per frame.
    pub fn new(capacity: usize) -> (out: EguiBlurRegions)
        requires
            1 <= capacity <= u32::MAX,
        ensures
            out@ == (OverlayView { capacity: capacity as nat, pending: Seq::<PendingBlur>::empty() }),
            out@.wf(),
    {
        EguiBlurRegions { capacity, pending: Vec::new() }
    }

    /// Buffer one window's region together with its redirection. When the
    /// buffer is already full the call is a no-op that reports
    /// [`SubmitOutcome::RejectedFull`] so the caller can warn.
    pub fn blur(&mut self, target: EguiBlurTarget, rect: Rect, rounding: CornerRadii) -> (outcome:
        SubmitOutcome)
        requires
            old(self)@.wf(),
            rect.wf(),
            rounding.wf(),
        ensures
            final(self)@ == old(self)@.buffer(
                PendingBlur { target, region: Region { rect, radii: rounding } },
            ),
            outcome == old(self)@.buffer_outcome(
                PendingBlur { target, region: Region { rect, radii: rounding } },
            ),
            final(self)@.wf(),
    {
        if self.pending.len() == self.capacity {
            return SubmitOutcome::RejectedFull;
        }
        self.pending.push(PendingBlur { target, region: Region { rect, radii: rounding } });
        SubmitOutcome::Stored
    }

    /// Drop every pending region; reconciliation ends the frame with this.
    pub fn clear(&mut self)
        ensures
            final(self)@ == (OverlayView {
                capacity: old(self)@.capacity,
                pending: Seq::<PendingBlur>::empty(),
            }),
    {
        self.pending.clear();
    }

    /// Number of regions waiting for reconciliation.
    pub fn pending_count(&self) -> (n: usize)
        ensures
            n == self@.pending.len(),
    {
        self.pending.len()
    }

    /// Read back one pending entry.
    pub fn pending_at(&self, i: usize) -> (entry: PendingBlur)
        requires
            i < self@.pending.len(),
        ensures
            entry == self@.pending[i as int],
    {
        self.pending[i]
    }
}

impl Default for EguiBlurRegions {
    /// A buffer sized like the default camera's region list.
    fn default() -> (out: EguiBlurRegions)
        ensures
            out@ == (OverlayView {
                capacity: DEFAULT_MAX_BLUR_REGIONS_COUNT as nat,
                pending: Seq::<PendingBlur>::empty(),
            }),
            out@.wf(),
    {
        EguiBlurRegions::new(DEFAULT_MAX_BLUR_REGIONS_COUNT)
    }
}

/// The rectangle the blur for an overlay window follows: the window's
/// previous-frame committed rectangle when one exists, else the
/// current-frame rectangle (the window's first frame).
pub open spec fn chosen_rect(previous_rect: Option<Rect>, current_rect: Rect) -> Rect {
    match previous_rect {
        Option::Some(p) => p,
        Option::None => current_rect,
    }
}

/// The region an overlay window produces: the chosen rectangle and the
/// window's outer-frame rounding, both brought into pixel space by the
/// window's scale factor.
pub open spec fn overlay_window_region(
    previous_rect: Option<Rect>,
    current_rect: Rect,
    frame_rounding: CornerRadii,
    scale_factor: int,
) -> Region {
    Region {
        rect: chosen_rect(previous_rect, current_rect).scaled_spec(scale_factor),
        radii: frame_rounding.scaled_spec(scale_factor),
    }
}

/// Build the pixel-space blur rectangle and rounding for one overlay
/// window. `previous_rect` is the window's committed area one frame ago,
/// read from the overlay runtime's per-window memory; the blur follows it
/// rather than the just-computed `current_rect` so the region stays glued
/// to the window despite the one-tick scheduling offset.
pub fn get_egui_blur_rect(
    previous_rect: Option<Rect>,
    current_rect: Rect,
    frame_rounding: CornerRadii,
    scale_factor: u32,
) -> (out: (Rect, CornerRadii))
    requires
        current_rect.wf(),
        frame_rounding.wf(),
        current_rect.scalable(scale_factor as int),
        frame_rounding.scalable(scale_factor as int),
        previous_rect matches Option::Some(p) ==> p.wf() && p.scalable(scale_factor as int),
    ensures
        out.0 == chosen_rect(previous_rect, current_rect).scaled_spec(scale_factor as int),
        out.1 == frame_rounding.scaled_spec(scale_factor as int),
        (Region { rect: out.0, radii: out.1 }) == overlay_window_region(
            previous_rect,
            current_rect,
            frame_rounding,
            scale_factor as int,
        ),
        (Region { rect: out.0, radii: out.1 }).wf(),
{
    let rect = match previous_rect {
        Option::Some(p) => p,
        Option::None => current_rect,
    };
    proof {
        (Region { rect: chosen_rect(previous_rect, current_rect), radii: frame_rounding })
            .lemma_scaled_wf(scale_factor as int);
    }
    (rect.scaled(scale_factor), frame_rounding.scaled(scale_factor))
}

/// Buffer one overlay window's blur: build the window's pixel-space region
/// and append it, with its redirection, to the context buffer.
pub fn buffer_window_blur(
    regions: &mut EguiBlurRegions,
    target: EguiBlurTarget,
    previous_rect: Option<Rect>,
    current_rect: Rect,
    frame_rounding: CornerRadii,
    scale_factor: u32,
) -> (outcome: SubmitOutcome)
    requires
        old(regions)@.wf(),
        current_rect.wf(),
        frame_rounding.wf(),
        current_rect.scalable(scale_factor as int),
        frame_rounding.scalable(scale_factor as int),
        previous_rect matches Option::Some(p) ==> p.wf() && p.scalable(scale_factor as int),
    ensures
        final(regions)@ == old(regions)@.buffer(
            PendingBlur {
                target,
                region: overlay_window_region(
                    previous_rect,
                    current_rect,
                    frame_rounding,
                    scale_factor as int,
                ),
            },
        ),
        outcome == old(regions)@.buffer_outcome(
            PendingBlur {
                target,
                region: overlay_window_region(
                    previous_rect,
                    current_rect,
                    frame_rounding,
                    scale_factor as int,
                ),
            },
        ),
        final(regions)@.wf(),
{
    let (rect, rounding) = get_egui_blur_rect(
        previous_rect,
        current_rect,
        frame_rounding,
        scale_factor,
    );
    regions.blur(target, rect, rounding)
}

/// How many of the camera entries are marked as the default target.
pub open spec fn default_count(cams: Seq<CameraEntry>) -> nat
    decreases cams.len(),
{
    if cams.len() == 0 {
        0
    } else {
        default_count(cams.drop_last()) + if cams.last().is_default {
            1nat
        } else {
            0nat
        }
    }
}

/// A pending region is addressed to camera `j` exactly when its explicit
/// identifier matches that camera, or it asks for the default target and
/// camera `j` is the unique default.
pub open spec fn addressed_to(entry: PendingBlur, cams: Seq<CameraEntry>, j: int) -> bool {
    match entry.target {
        EguiBlurTarget::Entity(id) => cams[j].id == id,
        EguiBlurTarget::DefaultCamera => cams[j].is_default && default_count(cams) == 1,
    }
}

/// Some camera receives this pending region.
pub open spec fn has_address(entry: PendingBlur, cams: Seq<CameraEntry>) -> bool {
    exists|j: int| 0 <= j < cams.len() && addressed_to(entry, cams, j)
}

/// The regions among `pending`, in order, that reconciliation submits to
/// camera `j`.
pub open spec fn addressed_regions(
    pending: Seq<PendingBlur>,
    cams: Seq<CameraEntry>,
    j: int,
) -> Seq<Region>
    decreases pending.len(),
{
    if pending.len() == 0 {
        Seq::empty()
    } else {
        let rest = addressed_regions(pending.drop_last(), cams, j);
        if addressed_to(pending.last(), cams, j) {
            rest.push(pending.last().region)
        } else {
            rest
        }
    }
}

/// The number of pending regions no camera receives: dropped for the
/// frame, logged at debug level only.
pub open spec fn unaddressed_count(pending: Seq<PendingBlur>, cams: Seq<CameraEntry>) -> nat
    decreases pending.len(),
{
    if pending.len() == 0 {
        0
    } else {
        unaddressed_count(pending.drop_last(), cams) + if has_address(pending.last(), cams) {
            0nat
        } else {
            1nat
        }
    }
}

/// A marked-default camera contributes at least one to the default count.
proof fn lemma_default_counts_member(cams: Seq<CameraEntry>, j: int)
    requires
        0 <= j < cams.len(),
        cams[j].is_default,
    ensures
        default_count(cams) >= 1,
    decreases cams.len(),
{
    if j < cams.len() - 1 {
        lemma_default_counts_member(cams.drop_last(), j);
    }
}

/// Two distinct marked-default cameras push the default count to two.
proof fn lemma_two_defaults(cams: Seq<CameraEntry>, j1: int, j2: int)
    requires
        0 <= j1 < j2 < cams.len(),
        cams[j1].is_default,
        cams[j2].is_default,
    ensures
        default_count(cams) >= 2,
    decreases cams.len(),
{
    if j2 == cams.len() - 1 {
        lemma_default_counts_member(cams.drop_last(), j1);
    } else {
        lemma_two_defaults(cams.drop_last(), j1, j2);
    }
}

/// The default count depends only on each entry's default mark.
proof fn lemma_default_count_congruent(a: Seq<CameraEntry>, b: Seq<CameraEntry>)
    requires
        a.len() == b.len(),
        forall|j: int| 0 <= j < a.len() ==> a[j].is_default == b[j].is_default,
    ensures
        default_count(a) == default_count(b),
    decreases a.len(),
{
    if a.len() > 0 {
        lemma_default_count_congruent(a.drop_last(), b.drop_last());
    }
}

/// Addressing depends only on each entry's identifier and default mark.
proof fn lemma_addressing_congruent(entry: PendingBlur, a: Seq<CameraEntry>, b: Seq<CameraEntry>)
    requires
        a.len() == b.len(),
        forall|j: int|
            0 <= j < a.len() ==> a[j].id == b[j].id && a[j].is_default == b[j].is_default,
    ensures
        forall|j: int| 0 <= j < a.len() ==> addressed_to(entry, a, j) == addressed_to(entry, b, j),
        has_address(entry, a) == has_address(entry, b),
{
    lemma_default_count_congruent(a, b);
    if has_address(entry, a) {
        let j = choose|j: int| 0 <= j < a.len() && addressed_to(entry, a, j);
        assert(addressed_to(entry, b, j));
    }
    if has_address(entry, b) {
        let j = choose|j: int| 0 <= j < b.len() && addressed_to(entry, b, j);
        assert(addressed_to(entry, a, j));
    }
}

/// First camera with the given identifier, if any.
fn find_entity(cameras: &Vec<CameraEntry>, id: u64) -> (found: Option<usize>)
    ensures
        match found {
            Option::Some(j) => j < cameras@.len() && cameras@[j as int].id == id,
            Option::None => forall|j: int| 0 <= j < cameras@.len() ==> cameras@[j].id != id,
        },
{
    let mut i: usize = 0;
    while i < cameras.len()
        invariant
            i <= cameras@.len(),
            forall|j: int| 0 <= j < i ==> cameras@[j].id != id,
        decreases cameras@.len() - i,
    {
        if cameras[i].id == id {
            return Some(i);
        }
        i = i + 1;
    }
    None
}

/// The unique camera marked default, if exactly one is so marked.
fn find_default(cameras: &Vec<CameraEntry>) -> (found: Option<usize>)
    ensures
        match found {
            Option::Some(j) => j < cameras@.len() && cameras@[j as int].is_default
                && default_count(cameras@) == 1,
            Option::None => default_count(cameras@) != 1,
        },
{
    let mut defaults: usize = 0;
    let mut first: usize = 0;
    let mut i: usize = 0;
    while i < cameras.len()
        invariant
            i <= cameras@.len(),
            defaults == default_count(cameras@.take(i as int)),
            defaults <= i,
            defaults >= 1 ==> first < i && cameras@[first as int].is_default,
        decreases cameras@.len() - i,
    {
        proof {
            assert(cameras@.take(i + 1int).drop_last() =~= cameras@.take(i as int));
        }
        if cameras[i].is_default {
            if defaults == 0 {
                first = i;
            }
            defaults = defaults + 1;
        }
        i = i + 1;
    }
    proof {
        assert(cameras@.take(cameras@.len() as int) =~= cameras@);
    }
    if defaults == 1 {
        Some(first)
    } else {
        None
    }
}

/// Reconcile the overlay context into the render targets: drain every
/// pending region, in order, into the camera it addresses — the explicitly
/// identified target, or the unique default target — then clear the
/// context. A region whose redirection matches no camera (unknown
/// identifier, or zero or several default targets) is dropped for the
/// frame; the returned count of such drops is the caller's debug-level
/// diagnostic. A region addressed to a full list is dropped by the list
/// itself, warning as any other submission past capacity.
pub fn extract_egui_blurs(overlay: &mut EguiBlurRegions, cameras: &mut Vec<CameraEntry>) -> (dropped: usize)
    requires
        old(overlay)@.wf(),
        forall|j: int|
            0 <= j < old(cameras)@.len() ==> (#[trigger] old(cameras)@[j]).camera@.wf(),
        forall|j1: int, j2: int|
            0 <= j1 < j2 < old(cameras)@.len() ==> old(cameras)@[j1].id != old(cameras)@[j2].id,
    ensures
        final(cameras)@.len() == old(cameras)@.len(),
        forall|j: int|
            0 <= j < final(cameras)@.len() ==> {
                let entry = #[trigger] final(cameras)@[j];
                &&& entry.id == old(cameras)@[j].id
                &&& entry.is_default == old(cameras)@[j].is_default
                &&& entry.camera@ == old(cameras)@[j].camera@.submit_all(
                    addressed_regions(old(overlay)@.pending, old(cameras)@, j),
                )
                &&& entry.camera@.wf()
            },
        dropped == unaddressed_count(old(overlay)@.pending, old(cameras)@),
        final(overlay)@.pending.len() == 0,
        final(overlay)@.capacity == old(overlay)@.capacity,
{
    let ghost cams0 = old(cameras)@;
    let ghost pend = old(overlay)@.pending;
    let mut dropped: usize = 0;
    let mut k: usize = 0;
    let total = overlay.pending_count();
    while k < total
        invariant
            cams0 == old(cameras)@,
            pend == old(overlay)@.pending,
            k <= pend.len(),
            total == pend.len(),
            overlay@ == old(overlay)@,
            old(overlay)@.wf(),
            cameras@.len() == cams0.len(),
            forall|j: int| 0 <= j < cams0.len() ==> (#[trigger] cams0[j]).camera@.wf(),
            forall|j1: int, j2: int|
                0 <= j1 < j2 < cams0.len() ==> cams0[j1].id != cams0[j2].id,
            forall|j: int|
                0 <= j < cameras@.len() ==> (#[trigger] cameras@[j]).id == cams0[j].id
                    && cameras@[j].is_default == cams0[j].is_default,
            forall|j: int|
                0 <= j < cameras@.len() ==> {
                    let entry = #[trigger] cameras@[j];
                    &&& entry.camera@ == cams0[j].camera@.submit_all(
                        addressed_regions(pend.take(k as int), cams0, j),
                    )
                    &&& entry.camera@.wf()
                },
            dropped <= k,
            dropped == unaddressed_count(pend.take(k as int), cams0),
        decreases pend.len() - k,
    {
        let entry = overlay.pending_at(k);
        proof {
            assert(pend.take(k + 1int).drop_last() =~= pend.take(k as int));
            assert(pend.take(k + 1int).last() == entry);
            lemma_addressing_congruent(entry, cameras@, cams0);
        }
        let found = match entry.target {
            EguiBlurTarget::Entity(id) => find_entity(cameras, id),
            EguiBlurTarget::DefaultCamera => find_default(cameras),
        };
        match found {
            Option::Some(j) => {
                proof {
                    assert(addressed_to(entry, cams0, j as int));
                    assert(has_address(entry, cams0));
                    assert forall|j2: int|
                        0 <= j2 < cams0.len() && j2 != j as int implies !addressed_to(
                        entry,
                        cams0,
                        j2,
                    ) by {
                        match entry.target {
                            EguiBlurTarget::Entity(id) => {
                                if j2 < j as int {
                                    assert(cams0[j2].id != cams0[j as int].id);
                                } else {
                                    assert(cams0[j as int].id != cams0[j2].id);
                                }
                            },
                            EguiBlurTarget::DefaultCamera => {
                                if addressed_to(entry, cams0, j2) {
                                    lemma_default_count_congruent(cameras@, cams0);
                                    if j2 < j as int {
                                        lemma_two_defaults(cams0, j2, j as int);
                                    } else {
                                        lemma_two_defaults(cams0, j as int, j2);
                                    }
                                }
                            },
                        }
                    }
                }
                let ghost prevc = cameras@;
                let region = entry.region;
                let _outcome = cameras[j].camera.rounded_blur(region.rect, region.radii);
                proof {
                    assert(cameras@.len() == prevc.len());
                    assert(forall|j2: int|
                        0 <= j2 < prevc.len() && j2 != j as int ==> cameras@[j2] == prevc[j2]);
                    assert(cameras@[j as int].id == prevc[j as int].id);
                    assert(cameras@[j as int].camera@ == prevc[j as int].camera@.submit(
                        Region { rect: region.rect, radii: region.radii },
                    ));
                    assert(Region { rect: region.rect, radii: region.radii } == region);
                    assert forall|j2: int| 0 <= j2 < cams0.len() implies addressed_regions(
                        pend.take(k + 1int),
                        cams0,
                        j2,
                    ) == if j2 == j as int {
                        addressed_regions(pend.take(k as int), cams0, j2).push(region)
                    } else {
                        addressed_regions(pend.take(k as int), cams0, j2)
                    } by {}
                    lemma_submit_all_push(
                        cams0[j as int].camera@,
                        addressed_regions(pend.take(k as int), cams0, j as int),
                        region,
                    );
                }
            },
            Option::None => {
                proof {
                    assert(!has_address(entry, cams0)) by {
                        if has_address(entry, cams0) {
                            let j = choose|j: int|
                                0 <= j < cams0.len() && addressed_to(entry, cams0, j);
                            assert(addressed_to(entry, cameras@, j));
                        }
                    }
                    assert(forall|j2: int|
                        0 <= j2 < cams0.len() ==> addressed_regions(pend.take(k + 1int), cams0, j2)
                            == addressed_regions(pend.take(k as int), cams0, j2));
                }
                dropped = dropped + 1;
            },
        }
        k = k + 1;
    }
    proof {
        assert(pend.take(pend.len() as int) =~= pend);
    }
    overlay.clear();
    dropped
}

} // verus!
