//! Integer pixel-space geometry: rectangles, per-corner rounding, and the
//! rounded-rectangle membership test shared by every compositing pass.

use vstd::prelude::*;

verus! {

/// Largest coordinate magnitude (in pixels) the geometry model admits.
/// Keeping every coordinate and radius within this bound lets the
/// rounded-corner distance test square differences without overflow.
pub const COORD_LIMIT: i64 = 0x1000_0000;

/// An axis-aligned rectangle in target pixel space.
#[derive(Clone, Copy, Debug, PartialEq, Eq, Structural)]
pub struct Rect {
    pub min_x: i64,
    pub min_y: i64,
    pub max_x: i64,
    pub max_y: i64,
}

/// Per-corner rounding radii, in pixels, in the order
/// top-left, top-right, bottom-right, bottom-left.
#[derive(Clone, Copy, Debug, PartialEq, Eq, Structural)]
pub struct CornerRadii {
    pub top_left: i64,
    pub top_right: i64,
    pub bottom_right: i64,
    pub bottom_left: i64,
}

/// One blur region: a rectangle plus its corner rounding.
#[derive(Clone, Copy, Debug, PartialEq, Eq, Structural)]
pub struct Region {
    pub rect: Rect,
    pub radii: CornerRadii,
}

impl Rect {
    /// A rectangle is well formed when it is non-inverted and every
    /// coordinate stays within the model's pixel bound.
    pub open spec fn wf(self) -> bool {
        &&& -COORD_LIMIT <= self.min_x <= self.max_x <= COORD_LIMIT
        &&& -COORD_LIMIT <= self.min_y <= self.max_y <= COORD_LIMIT
    }

    /// The rectangle with every side multiplied by `scale`.
    pub open spec fn scaled_spec(self, scale: int) -> Rect {
        Rect {
            min_x: (self.min_x * scale) as i64,
            min_y: (self.min_y * scale) as i64,
            max_x: (self.max_x * scale) as i64,
            max_y: (self.max_y * scale) as i64,
        }
    }

    /// True when multiplying every side by `scale` stays within bounds.
    pub open spec fn scalable(self, scale: int) -> bool {
        &&& -COORD_LIMIT <= self.min_x * scale <= COORD_LIMIT
        &&& -COORD_LIMIT <= self.min_y * scale <= COORD_LIMIT
        &&& -COORD_LIMIT <= self.max_x * scale <= COORD_LIMIT
        &&& -COORD_LIMIT <= self.max_y * scale <= COORD_LIMIT
    }

    /// Multiply every side by the device scale factor.
    pub fn scaled(&self, scale: u32) -> (out: Rect)
        requires
            self.scalable(scale as int),
        ensures
            out == self.scaled_spec(scale as int),
    {
        Rect {
            min_x: self.min_x * (scale as i64),
            min_y: self.min_y * (scale as i64),
            max_x: self.max_x * (scale as i64),
            max_y: self.max_y * (scale as i64),
        }
    }
}

impl CornerRadii {
    /// Radii are well formed when each is a bounded, non-negative length.
    pub open spec fn wf(self) -> bool {
        &&& 0 <= self.top_left <= COORD_LIMIT
        &&& 0 <= self.top_right <= COORD_LIMIT
        &&& 0 <= self.bottom_right <= COORD_LIMIT
        &&& 0 <= self.bottom_left <= COORD_LIMIT
    }

    /// The radii with every entry multiplied by `scale`.
    pub open spec fn scaled_spec(self, scale: int) -> CornerRadii {
        CornerRadii {
            top_left: (self.top_left * scale) as i64,
            top_right: (self.top_right * scale) as i64,
            bottom_right: (self.bottom_right * scale) as i64,
            bottom_left: (self.bottom_left * scale) as i64,
        }
    }

    /// True when multiplying every radius by `scale` stays within bounds.
    pub open spec fn scalable(self, scale: int) -> bool {
        &&& 0 <= self.top_left * scale <= COORD_LIMIT
        &&& 0 <= self.top_right * scale <= COORD_LIMIT
        &&& 0 <= self.bottom_right * scale <= COORD_LIMIT
        &&& 0 <= self.bottom_left * scale <= COORD_LIMIT
    }

    /// All four radii zero: plain rectangular corners.
    pub fn zero() -> (out: CornerRadii)
        ensures
            out == CornerRadii::zero_spec(),
    {
        CornerRadii { top_left: 0, top_right: 0, bottom_right: 0, bottom_left: 0 }
    }

    /// Spec value of [`CornerRadii::zero`].
    pub open spec fn zero_spec() -> CornerRadii {
        CornerRadii { top_left: 0, top_right: 0, bottom_right: 0, bottom_left: 0 }
    }

    /// Multiply every radius by the device scale factor.
    pub fn scaled(&self, scale: u32) -> (out: CornerRadii)
        requires
            self.scalable(scale as int),
        ensures
            out == self.scaled_spec(scale as int),
    {
        CornerRadii {
            top_left: self.top_left * (scale as i64),
            top_right: self.top_right * (scale as i64),
            bottom_right: self.bottom_right * (scale as i64),
            bottom_left: self.bottom_left * (scale as i64),
        }
    }
}

impl Region {
    /// A region is well formed when its rectangle and radii are.
    pub open spec fn wf(self) -> bool {
        self.rect.wf() && self.radii.wf()
    }

    /// Spec value of the offscreen sentinel: a degenerate rectangle at
    /// (-1, -1) with square corners. It marks an unused region slot and
    /// matches no pixel of any target.
    pub open spec fn offscreen_spec() -> Region {
        Region {
            rect: Rect { min_x: -1i64, min_y: -1i64, max_x: -1i64, max_y: -1i64 },
            radii: CornerRadii::zero_spec(),
        }
    }

    /// The offscreen sentinel stored in unused region slots.
    pub fn offscreen() -> (out: Region)
        ensures
            out == Region::offscreen_spec(),
            out.wf(),
    {
        Region {
            rect: Rect { min_x: -1, min_y: -1, max_x: -1, max_y: -1 },
            radii: CornerRadii::zero(),
        }
    }

    /// Rounded-rectangle membership: the pixel lies within the rectangle
    /// (closed on all sides) and, within each corner's rounding quadrant,
    /// within that corner's own radius of the inscribed arc center.
    pub open spec fn contains_spec(self, x: int, y: int) -> bool {
        &&& self.rect.min_x <= x <= self.rect.max_x
        &&& self.rect.min_y <= y <= self.rect.max_y
        &&& !self.corner_excludes_top_left(x, y)
        &&& !self.corner_excludes_top_right(x, y)
        &&& !self.corner_excludes_bottom_right(x, y)
        &&& !self.corner_excludes_bottom_left(x, y)
    }

    /// The pixel lies in the top-left rounding quadrant but beyond the arc.
    pub open spec fn corner_excludes_top_left(self, x: int, y: int) -> bool {
        let r = self.radii.top_left;
        let cx = self.rect.min_x + r;
        let cy = self.rect.min_y + r;
        x < cx && y < cy && (cx - x) * (cx - x) + (cy - y) * (cy - y) > r * r
    }

    /// The pixel lies in the top-right rounding quadrant but beyond the arc.
    pub open spec fn corner_excludes_top_right(self, x: int, y: int) -> bool {
        let r = self.radii.top_right;
        let cx = self.rect.max_x - r;
        let cy = self.rect.min_y + r;
        x > cx && y < cy && (x - cx) * (x - cx) + (cy - y) * (cy - y) > r * r
    }

    /// The pixel lies in the bottom-right rounding quadrant but beyond the arc.
    pub open spec fn corner_excludes_bottom_right(self, x: int, y: int) -> bool {
        let r = self.radii.bottom_right;
        let cx = self.rect.max_x - r;
        let cy = self.rect.max_y - r;
        x > cx && y > cy && (x - cx) * (x - cx) + (y - cy) * (y - cy) > r * r
    }

    /// The pixel lies in the bottom-left rounding quadrant but beyond the arc.
    pub open spec fn corner_excludes_bottom_left(self, x: int, y: int) -> bool {
        let r = self.radii.bottom_left;
        let cx = self.rect.min_x + r;
        let cy = self.rect.max_y - r;
        x < cx && y > cy && (cx - x) * (cx - x) + (y - cy) * (y - cy) > r * r
    }

    /// Decide rounded-rectangle membership for one pixel.
    pub fn contains(&self, x: i64, y: i64) -> (inside: bool)
        requires
            self.wf(),
            -COORD_LIMIT <= x <= COORD_LIMIT,
            -COORD_LIMIT <= y <= COORD_LIMIT,
        ensures
            inside == self.contains_spec(x as int, y as int),
    {
        if x < self.rect.min_x || x > self.rect.max_x || y < self.rect.min_y
            || y > self.rect.max_y {
            return false;
        }
        if Self::corner_cut(self.rect.min_x + self.radii.top_left - x,
            self.rect.min_y + self.radii.top_left - y, self.radii.top_left) {
            return false;
        }
        if Self::corner_cut(x - (self.rect.max_x - self.radii.top_right),
            self.rect.min_y + self.radii.top_right - y, self.radii.top_right) {
            return false;
        }
        if Self::corner_cut(x - (self.rect.max_x - self.radii.bottom_right),
            y - (self.rect.max_y - self.radii.bottom_right), self.radii.bottom_right) {
            return false;
        }
        if Self::corner_cut(self.rect.min_x + self.radii.bottom_left - x,
            y - (self.rect.max_y - self.radii.bottom_left), self.radii.bottom_left) {
            return false;
        }
        true
    }

    /// One corner's exclusion test over offsets from the arc center:
    /// `dx` and `dy` point from the pixel into the corner quadrant, so the
    /// quadrant is `dx > 0 && dy > 0`.
    fn corner_cut(dx: i64, dy: i64, r: i64) -> (cut: bool)
        requires
            -4 * COORD_LIMIT <= dx <= 4 * COORD_LIMIT,
            -4 * COORD_LIMIT <= dy <= 4 * COORD_LIMIT,
            0 <= r <= COORD_LIMIT,
        ensures
            cut == (dx > 0 && dy > 0 && dx * dx + dy * dy > r * r),
    {
        if dx > 0 && dy > 0 {
            proof {
                assert(0 <= dx * dx <= 0x1000_0000_0000_0000
                    && 0 <= dy * dy <= 0x1000_0000_0000_0000
                    && 0 <= r * r <= 0x100_0000_0000_0000) by (nonlinear_arith)
                    requires
                        0 < dx <= 0x4000_0000,
                        0 < dy <= 0x4000_0000,
                        0 <= r <= 0x1000_0000,
                ;
            }
            dx * dx + dy * dy > r * r
        } else {
            false
        }
    }

    /// Scaling a well-formed region by a non-negative factor, within
    /// bounds, yields a well-formed region.
    pub proof fn lemma_scaled_wf(self, scale: int)
        requires
            self.wf(),
            self.rect.scalable(scale),
            self.radii.scalable(scale),
            scale >= 0,
        ensures
            (Region {
                rect: self.rect.scaled_spec(scale),
                radii: self.radii.scaled_spec(scale),
            }).wf(),
    {
        assert(self.rect.min_x * scale <= self.rect.max_x * scale
            && self.rect.min_y * scale <= self.rect.max_y * scale) by (nonlinear_arith)
            requires
                self.rect.min_x <= self.rect.max_x,
                self.rect.min_y <= self.rect.max_y,
                scale >= 0,
        ;
    }

    /// The offscreen sentinel never matches any pixel of a target, whose
    /// pixel coordinates are never negative.
    pub proof fn lemma_offscreen_matches_nothing(x: int, y: int)
        requires
            x >= 0 || y >= 0,
        ensures
            !Region::offscreen_spec().contains_spec(x, y),
    {
    }
}

} // verus!
