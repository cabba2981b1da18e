//! The structured-UI producer: for every layout-resolved element flagged as
//! a blur source, build its pixel-space region — rectangle from the resolved
//! center and size, per-corner radii clamped to half the element's shorter
//! side — and submit it to the element's camera.

use vstd::prelude::*;

use crate::camera::lemma_submit_all_push;
use crate::camera::BlurRegionsCamera;
use crate::geom::CornerRadii;
use crate::geom::Rect;
use crate::geom::Region;
use crate::geom::COORD_LIMIT;

verus! {

/// One UI element flagged as a blur source, as the layout pass resolved
/// it: center and size in layout units, the declared per-corner border
/// radius already reduced to plain lengths in the same units, and the
/// element's effective visibility.
#[derive(Clone, Copy, Debug, PartialEq, Eq, Structural)]
pub struct UiNode {
    pub center_x: i64,
    pub center_y: i64,
    pub width: i64,
    pub height: i64,
    pub border_radius: CornerRadii,
    pub visible: bool,
}

impl UiNode {
    /// Layout output is well formed: non-negative bounded size, bounded
    /// center, well-formed declared radii.
    pub open spec fn wf(self) -> bool {
        &&& 0 <= self.width <= COORD_LIMIT
        &&& 0 <= self.height <= COORD_LIMIT
        &&& -COORD_LIMIT <= self.center_x <= COORD_LIMIT
        &&& -COORD_LIMIT <= self.center_y <= COORD_LIMIT
        &&& self.border_radius.wf()
    }

    /// The element's geometry, brought to pixel space by `scale`, stays
    /// within the model's coordinate bound.
    pub open spec fn scalable(self, scale: int) -> bool {
        &&& 0 <= self.width * scale <= COORD_LIMIT
        &&& 0 <= self.height * scale <= COORD_LIMIT
        &&& -COORD_LIMIT / 2 <= self.center_x * scale <= COORD_LIMIT / 2
        &&& -COORD_LIMIT / 2 <= self.center_y * scale <= COORD_LIMIT / 2
        &&& self.shorter_side() / 2 * scale <= COORD_LIMIT
    }

    /// The shorter of the element's two sides.
    pub open spec fn shorter_side(self) -> int {
        if self.width <= self.height {
            self.width as int
        } else {
            self.height as int
        }
    }
}

/// One declared corner radius resolved against its element: clamped to the
/// non-negative range up to half the element's shorter side, then scaled to
/// pixel space.
pub open spec fn resolve_border_radius_spec(
    declared: int,
    width: int,
    height: int,
    scale: int,
) -> int {
    let half = (if width <= height {
        width
    } else {
        height
    }) / 2;
    let clamped = if declared < 0 {
        0
    } else if declared > half {
        half
    } else {
        declared
    };
    clamped * scale
}

/// Resolved radii scale exactly linearly with the scale factor: resolving
/// at a factor `k` times larger yields exactly `k` times the radius.
pub proof fn lemma_radius_scales_linearly(
    declared: int,
    width: int,
    height: int,
    scale: int,
    k: int,
)
    ensures
        resolve_border_radius_spec(declared, width, height, k * scale) == k
            * resolve_border_radius_spec(declared, width, height, scale),
{
    let half = (if width <= height {
        width
    } else {
        height
    }) / 2;
    let clamped = if declared < 0 {
        0
    } else if declared > half {
        half
    } else {
        declared
    };
    assert(clamped * (k * scale) == k * (clamped * scale)) by (nonlinear_arith);
}

/// Resolved radii never exceed half the element's shorter side scaled by
/// the active scale factor, and are never negative.
pub proof fn lemma_radius_bounded(declared: int, width: int, height: int, scale: int)
    requires
        width >= 0,
        height >= 0,
        scale >= 0,
    ensures
        0 <= resolve_border_radius_spec(declared, width, height, scale) <= (if width <= height {
            width
        } else {
            height
        }) / 2 * scale,
{
    let half = (if width <= height {
        width
    } else {
        height
    }) / 2;
    let clamped = if declared < 0 {
        0
    } else if declared > half {
        half
    } else {
        declared
    };
    assert(0 <= clamped * scale <= half * scale) by (nonlinear_arith)
        requires
            0 <= clamped <= half,
            scale >= 0,
    ;
}

/// Resolve one declared corner radius in executable code.
pub fn resolve_border_radius(declared: i64, width: i64, height: i64, scale_factor: u32) -> (out:
    i64)
    requires
        0 <= width <= COORD_LIMIT,
        0 <= height <= COORD_LIMIT,
        (if width <= height {
            width as int
        } else {
            height as int
        }) / 2 * scale_factor <= COORD_LIMIT,
    ensures
        out == resolve_border_radius_spec(
            declared as int,
            width as int,
            height as int,
            scale_factor as int,
        ),
        0 <= out <= COORD_LIMIT,
{
    let half = (if width <= height {
        width
    } else {
        height
    }) / 2;
    let clamped = if declared < 0 {
        0
    } else if declared > half {
        half
    } else {
        declared
    };
    proof {
        assert(0 <= clamped * (scale_factor as int) <= half * (scale_factor as int))
            by (nonlinear_arith)
            requires
                0 <= clamped <= half,
                scale_factor >= 0,
        ;
    }
    clamped * (scale_factor as i64)
}

/// The pixel-space rectangle of one element: scale the resolved center and
/// size, then span the rectangle around the center so its width and height
/// are exactly the scaled size.
pub open spec fn ui_rect_spec(node: UiNode, scale: int) -> Rect {
    let w = node.width * scale;
    let h = node.height * scale;
    let min_x = node.center_x * scale - w / 2;
    let min_y = node.center_y * scale - h / 2;
    Rect {
        min_x: min_x as i64,
        min_y: min_y as i64,
        max_x: (min_x + w) as i64,
        max_y: (min_y + h) as i64,
    }
}

/// The full region one element produces: its pixel-space rectangle and its
/// four resolved corner radii.
pub open spec fn ui_region_spec(node: UiNode, scale: int) -> Region {
    Region {
        rect: ui_rect_spec(node, scale),
        radii: CornerRadii {
            top_left: resolve_border_radius_spec(
                node.border_radius.top_left as int,
                node.width as int,
                node.height as int,
                scale,
            ) as i64,
            top_right: resolve_border_radius_spec(
                node.border_radius.top_right as int,
                node.width as int,
                node.height as int,
                scale,
            ) as i64,
            bottom_right: resolve_border_radius_spec(
                node.border_radius.bottom_right as int,
                node.width as int,
                node.height as int,
                scale,
            ) as i64,
            bottom_left: resolve_border_radius_spec(
                node.border_radius.bottom_left as int,
                node.width as int,
                node.height as int,
                scale,
            ) as i64,
        },
    }
}

/// The regions a sequence of elements produces, in order, skipping the
/// elements that are not visible.
pub open spec fn ui_regions_spec(nodes: Seq<UiNode>, scale: int) -> Seq<Region>
    decreases nodes.len(),
{
    if nodes.len() == 0 {
        Seq::empty()
    } else {
        let rest = ui_regions_spec(nodes.drop_last(), scale);
        if nodes.last().visible {
            rest.push(ui_region_spec(nodes.last(), scale))
        } else {
            rest
        }
    }
}

/// Build one visible element's pixel-space rectangle.
fn ui_node_rect(node: &UiNode, scale_factor: u32) -> (out: Rect)
    requires
        node.wf(),
        node.scalable(scale_factor as int),
    ensures
        out == ui_rect_spec(*node, scale_factor as int),
        out.wf(),
{
    let w = node.width * (scale_factor as i64);
    let h = node.height * (scale_factor as i64);
    let min_x = node.center_x * (scale_factor as i64) - w / 2;
    let min_y = node.center_y * (scale_factor as i64) - h / 2;
    Rect { min_x, min_y, max_x: min_x + w, max_y: min_y + h }
}

/// Build one visible element's resolved corner radii.
fn ui_node_radii(node: &UiNode, scale_factor: u32) -> (out: CornerRadii)
    requires
        node.wf(),
        node.scalable(scale_factor as int),
    ensures
        out == ui_region_spec(*node, scale_factor as int).radii,
        out.wf(),
{
    CornerRadii {
        top_left: resolve_border_radius(
            node.border_radius.top_left,
            node.width,
            node.height,
            scale_factor,
        ),
        top_right: resolve_border_radius(
            node.border_radius.top_right,
            node.width,
            node.height,
            scale_factor,
        ),
        bottom_right: resolve_border_radius(
            node.border_radius.bottom_right,
            node.width,
            node.height,
            scale_factor,
        ),
        bottom_left: resolve_border_radius(
            node.border_radius.bottom_left,
            node.width,
            node.height,
            scale_factor,
        ),
    }
}

/// The structured-UI synchronizer: submit one region per visible flagged
/// element, in element order, to the camera whose window the elements lay
/// out in. Scheduled after layout resolution and before the GPU upload.
pub fn compute_blur_regions(
    nodes: &Vec<UiNode>,
    scale_factor: u32,
    camera: &mut BlurRegionsCamera,
)
    requires
        old(camera)@.wf(),
        forall|i: int|
            0 <= i < nodes@.len() ==> (#[trigger] nodes@[i]).wf() && nodes@[i].scalable(
                scale_factor as int,
            ),
    ensures
        final(camera)@ == old(camera)@.submit_all(ui_regions_spec(nodes@, scale_factor as int)),
        final(camera)@.wf(),
{
    let mut i: usize = 0;
    while i < nodes.len()
        invariant
            i <= nodes@.len(),
            forall|j: int|
                0 <= j < nodes@.len() ==> (#[trigger] nodes@[j]).wf() && nodes@[j].scalable(
                    scale_factor as int,
                ),
            camera@ == old(camera)@.submit_all(
                ui_regions_spec(nodes@.take(i as int), scale_factor as int),
            ),
            camera@.wf(),
        decreases nodes@.len() - i,
    {
        proof {
            assert(nodes@.take(i + 1int).drop_last() =~= nodes@.take(i as int));
            assert(nodes@.take(i + 1int).last() == nodes@[i as int]);
        }
        let node = nodes[i];
        if node.visible {
            let rect = ui_node_rect(&node, scale_factor);
            let radii = ui_node_radii(&node, scale_factor);
            camera.rounded_blur(rect, radii);
            proof {
                assert(Region { rect, radii } == ui_region_spec(node, scale_factor as int));
                lemma_submit_all_push(
                    old(camera)@,
                    ui_regions_spec(nodes@.take(i as int), scale_factor as int),
                    ui_region_spec(node, scale_factor as int),
                );
            }
        }
        i = i + 1;
    }
    proof {
        assert(nodes@.take(nodes@.len() as int) =~= nodes@);
    }
}

} // verus!
