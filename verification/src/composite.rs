//! The compositing pipeline: a two-pass separable blur over a target's
//! color image, driven by the uploaded uniform snapshot. A pixel is blurred
//! in a pass exactly when it lies inside at least one live region —
//! evaluated identically in both passes — and every other pixel passes
//! through unchanged. The blur kernel is a box average whose half-width is
//! half the circle-of-confusion diameter, clamped at the image edges.

use vstd::prelude::*;

use vstd::arithmetic::div_mod::lemma_div_is_ordered;
use vstd::arithmetic::div_mod::lemma_div_multiples_vanish;
use vstd::arithmetic::div_mod::lemma_fundamental_div_mod_converse;

use crate::geom::COORD_LIMIT;
use crate::upload::BlurRegionsUniform;

verus! {

/// Mathematical state of an [`Image`]: its dimensions and its pixels in
/// row-major order.
#[verifier::ext_equal]
pub ghost struct ImageView {
    pub width: nat,
    pub height: nat,
    pub pixels: Seq<u32>,
}

impl ImageView {
    /// Row-major storage of bounded dimensions.
    pub open spec fn wf(self) -> bool {
        &&& self.pixels.len() == self.width * self.height
        &&& self.width <= COORD_LIMIT
        &&& self.height <= COORD_LIMIT
    }

    /// The pixel at column `x` of row `y`.
    pub open spec fn pix(self, x: int, y: int) -> u32 {
        self.pixels[y * self.width + x]
    }
}

/// A color target in CPU-visible form: one 32-bit color word per pixel,
/// row-major.
pub struct Image {
    pub width: usize,
    pub height: usize,
    pub pixels: Vec<u32>,
}

impl View for Image {
    type V = ImageView;

    open spec fn view(&self) -> ImageView {
        ImageView {
            width: self.width as nat,
            height: self.height as nat,
            pixels: self.pixels@,
        }
    }
}

/// The pixel lies inside at least one live region of the snapshot. Only
/// slots below the live count take part, so sentinel slots never match.
pub open spec fn in_any_region(uniform: BlurRegionsUniform, x: int, y: int) -> bool {
    exists|i: int|
        0 <= i < uniform.current_regions_count as int && uniform.regions@[i].contains_spec(x, y)
}

/// The box kernel's half-width: half the circle-of-confusion diameter.
pub open spec fn blur_radius(uniform: BlurRegionsUniform) -> int {
    uniform.circle_of_confusion as int / 2
}

/// Sum of row `y`'s pixels from column `lo` to column `hi`, inclusive.
pub open spec fn row_sum(img: ImageView, y: int, lo: int, hi: int) -> int
    decreases hi + 1 - lo,
{
    if hi < lo {
        0
    } else {
        row_sum(img, y, lo, hi - 1) + img.pix(hi, y)
    }
}

/// Sum of column `x`'s pixels from row `lo` to row `hi`, inclusive.
pub open spec fn col_sum(img: ImageView, x: int, lo: int, hi: int) -> int
    decreases hi + 1 - lo,
{
    if hi < lo {
        0
    } else {
        col_sum(img, x, lo, hi - 1) + img.pix(x, hi)
    }
}

/// The horizontally blurred value of one in-region pixel: the average of
/// the row window of half-width [`blur_radius`] around it, clamped to the
/// image.
pub open spec fn h_blurred_pixel(img: ImageView, uniform: BlurRegionsUniform, x: int, y: int) -> u32 {
    let r = blur_radius(uniform);
    let lo = if x - r < 0 {
        0
    } else {
        x - r
    };
    let hi = if x + r > img.width - 1 {
        img.width - 1
    } else {
        x + r
    };
    (row_sum(img, y, lo, hi) / (hi - lo + 1)) as u32
}

/// The vertically blurred value of one in-region pixel.
pub open spec fn v_blurred_pixel(img: ImageView, uniform: BlurRegionsUniform, x: int, y: int) -> u32 {
    let r = blur_radius(uniform);
    let lo = if y - r < 0 {
        0
    } else {
        y - r
    };
    let hi = if y + r > img.height - 1 {
        img.height - 1
    } else {
        y + r
    };
    (col_sum(img, x, lo, hi) / (hi - lo + 1)) as u32
}

/// One output pixel of the horizontal pass: blurred inside a region,
/// passed through outside.
pub open spec fn h_pass_pixel(img: ImageView, uniform: BlurRegionsUniform, x: int, y: int) -> u32 {
    if in_any_region(uniform, x, y) {
        h_blurred_pixel(img, uniform, x, y)
    } else {
        img.pix(x, y)
    }
}

/// One output pixel of the vertical pass.
pub open spec fn v_pass_pixel(img: ImageView, uniform: BlurRegionsUniform, x: int, y: int) -> u32 {
    if in_any_region(uniform, x, y) {
        v_blurred_pixel(img, uniform, x, y)
    } else {
        img.pix(x, y)
    }
}

/// The whole image after the horizontal pass.
pub open spec fn h_pass_spec(img: ImageView, uniform: BlurRegionsUniform) -> ImageView {
    ImageView {
        width: img.width,
        height: img.height,
        pixels: Seq::new(
            img.width * img.height,
            |idx: int| h_pass_pixel(img, uniform, idx % img.width as int, idx / img.width as int),
        ),
    }
}

/// The whole image after the vertical pass.
pub open spec fn v_pass_spec(img: ImageView, uniform: BlurRegionsUniform) -> ImageView {
    ImageView {
        width: img.width,
        height: img.height,
        pixels: Seq::new(
            img.width * img.height,
            |idx: int| v_pass_pixel(img, uniform, idx % img.width as int, idx / img.width as int),
        ),
    }
}

/// Decide region membership for one pixel of a target.
fn pixel_in_regions(uniform: &BlurRegionsUniform, x: usize, y: usize) -> (inside: bool)
    requires
        uniform.wf(),
        x <= COORD_LIMIT,
        y <= COORD_LIMIT,
    ensures
        inside == in_any_region(*uniform, x as int, y as int),
{
    let count = uniform.current_regions_count as usize;
    let mut i: usize = 0;
    while i < count
        invariant
            i <= count,
            count == uniform.current_regions_count as int,
            uniform.wf(),
            x <= COORD_LIMIT,
            y <= COORD_LIMIT,
            forall|j: int|
                0 <= j < i ==> !(#[trigger] uniform.regions@[j]).contains_spec(x as int, y as int),
        decreases count - i,
    {
        if uniform.regions[i].contains(x as i64, y as i64) {
            return true;
        }
        i = i + 1;
    }
    false
}

/// Compute one output pixel of the horizontal pass.
fn h_pixel(src: &Image, uniform: &BlurRegionsUniform, x: usize, y: usize) -> (value: u32)
    requires
        src@.wf(),
        uniform.wf(),
        x < src@.width,
        y < src@.height,
    ensures
        value == h_pass_pixel(src@, *uniform, x as int, y as int),
{
    let width = src.width;
    let len = src.pixels.len();
    proof {
        assert(y * width + x < width * src@.height && y * width >= 0) by (nonlinear_arith)
            requires
                0 <= x < width,
                0 <= y < src@.height,
        ;
    }
    if !pixel_in_regions(uniform, x, y) {
        return src.pixels[y * width + x];
    }
    let r_wide = uniform.circle_of_confusion / 2;
    let r = r_wide as usize;
    let lo = if x > r {
        x - r
    } else {
        0
    };
    let hi = if x <= width - 1 - (if r < width - 1 {
        r
    } else {
        width - 1
    }) {
        x + (if r < width - 1 {
            r
        } else {
            width - 1
        })
    } else {
        width - 1
    };
    proof {
        let rr = blur_radius(*uniform);
        assert(lo == if x as int - rr < 0 {
            0int
        } else {
            x as int - rr
        });
        assert(hi == if x as int + rr > src@.width - 1 {
            src@.width - 1
        } else {
            x as int + rr
        });
    }
    let mut sum: u64 = 0;
    let mut k = lo;
    while k <= hi
        invariant
            src@.wf(),
            width == src@.width,
            y < src@.height,
            lo <= k <= hi + 1,
            hi < width,
            sum == row_sum(src@, y as int, lo as int, k - 1),
            sum <= (k - lo) * 0xFFFF_FFFF,
            len == src@.pixels.len(),
        decreases hi + 1 - k,
    {
        proof {
            assert(y * width + k < width * src@.height && y * width >= 0) by (nonlinear_arith)
                requires
                    0 <= k < width,
                    0 <= y < src@.height,
            ;
        }
        sum = sum + src.pixels[y * width + k] as u64;
        k = k + 1;
    }
    let n = hi - lo + 1;
    let value = sum / n as u64;
    proof {
        let total = row_sum(src@, y as int, lo as int, hi as int);
        assert(total <= n * 0xFFFF_FFFF);
        lemma_div_is_ordered(total, n * 0xFFFF_FFFF, n as int);
        lemma_div_multiples_vanish(0xFFFF_FFFF, n as int);
        assert(total >= 0) by {
            lemma_row_sum_nonneg(src@, y as int, lo as int, hi as int);
        }
        assert(value == total / (n as int));
    }
    value as u32
}

/// Compute one output pixel of the vertical pass.
fn v_pixel(src: &Image, uniform: &BlurRegionsUniform, x: usize, y: usize) -> (value: u32)
    requires
        src@.wf(),
        uniform.wf(),
        x < src@.width,
        y < src@.height,
    ensures
        value == v_pass_pixel(src@, *uniform, x as int, y as int),
{
    let width = src.width;
    let height = src.height;
    let len = src.pixels.len();
    proof {
        assert(y * width + x < width * src@.height && y * width >= 0) by (nonlinear_arith)
            requires
                0 <= x < width,
                0 <= y < src@.height,
        ;
    }
    if !pixel_in_regions(uniform, x, y) {
        return src.pixels[y * width + x];
    }
    let r_wide = uniform.circle_of_confusion / 2;
    let r = r_wide as usize;
    let lo = if y > r {
        y - r
    } else {
        0
    };
    let hi = if y <= height - 1 - (if r < height - 1 {
        r
    } else {
        height - 1
    }) {
        y + (if r < height - 1 {
            r
        } else {
            height - 1
        })
    } else {
        height - 1
    };
    proof {
        let rr = blur_radius(*uniform);
        assert(lo == if y as int - rr < 0 {
            0int
        } else {
            y as int - rr
        });
        assert(hi == if y as int + rr > src@.height - 1 {
            src@.height - 1
        } else {
            y as int + rr
        });
    }
    let mut sum: u64 = 0;
    let mut k = lo;
    while k <= hi
        invariant
            src@.wf(),
            width == src@.width,
            height == src@.height,
            x < src@.width,
            lo <= k <= hi + 1,
            hi < height,
            sum == col_sum(src@, x as int, lo as int, k - 1),
            sum <= (k - lo) * 0xFFFF_FFFF,
            len == src@.pixels.len(),
        decreases hi + 1 - k,
    {
        proof {
            assert(k * width + x < width * src@.height && k * width >= 0) by (nonlinear_arith)
                requires
                    0 <= x < width,
                    0 <= k < src@.height,
            ;
        }
        sum = sum + src.pixels[k * width + x] as u64;
        k = k + 1;
    }
    let n = hi - lo + 1;
    let value = sum / n as u64;
    proof {
        let total = col_sum(src@, x as int, lo as int, hi as int);
        assert(total <= n * 0xFFFF_FFFF);
        lemma_div_is_ordered(total, n * 0xFFFF_FFFF, n as int);
        lemma_div_multiples_vanish(0xFFFF_FFFF, n as int);
        assert(total >= 0) by {
            lemma_col_sum_nonneg(src@, x as int, lo as int, hi as int);
        }
        assert(value == total / (n as int));
    }
    value as u32
}

/// A row window's sum is never negative.
proof fn lemma_row_sum_nonneg(img: ImageView, y: int, lo: int, hi: int)
    ensures
        row_sum(img, y, lo, hi) >= 0,
    decreases hi + 1 - lo,
{
    if hi >= lo {
        lemma_row_sum_nonneg(img, y, lo, hi - 1);
    }
}

/// A column window's sum is never negative.
proof fn lemma_col_sum_nonneg(img: ImageView, x: int, lo: int, hi: int)
    ensures
        col_sum(img, x, lo, hi) >= 0,
    decreases hi + 1 - lo,
{
    if hi >= lo {
        lemma_col_sum_nonneg(img, x, lo, hi - 1);
    }
}

/// Run the horizontal blur pass over a whole image.
pub fn horizontal_pass(src: &Image, uniform: &BlurRegionsUniform) -> (out: Image)
    requires
        src@.wf(),
        uniform.wf(),
    ensures
        out@ == h_pass_spec(src@, *uniform),
        out@.wf(),
{
    let width = src.width;
    let height = src.height;
    let mut pixels: Vec<u32> = Vec::new();
    let mut y: usize = 0;
    while y < height
        invariant
            src@.wf(),
            uniform.wf(),
            width == src@.width,
            height == src@.height,
            y <= height,
            pixels@.len() == y * width,
            forall|idx: int|
                0 <= idx < pixels@.len() ==> pixels@[idx] == h_pass_pixel(
                    src@,
                    *uniform,
                    idx % width as int,
                    idx / width as int,
                ),
        decreases height - y,
    {
        let mut x: usize = 0;
        while x < width
            invariant
                src@.wf(),
                uniform.wf(),
                width == src@.width,
                height == src@.height,
                y < height,
                x <= width,
                pixels@.len() == y * width + x,
                forall|idx: int|
                    0 <= idx < pixels@.len() ==> pixels@[idx] == h_pass_pixel(
                        src@,
                        *uniform,
                        idx % width as int,
                        idx / width as int,
                    ),
            decreases width - x,
        {
            let value = h_pixel(src, uniform, x, y);
            pixels.push(value);
            proof {
                lemma_fundamental_div_mod_converse(
                    y * width + x,
                    width as int,
                    y as int,
                    x as int,
                );
                assert(y * width + x + 1 <= y * width + width) by (nonlinear_arith)
                    requires
                        x < width,
                ;
            }
            x = x + 1;
        }
        proof {
            assert(y * width + width == (y + 1) * width) by (nonlinear_arith);
        }
        y = y + 1;
    }
    let out = Image { width, height, pixels };
    proof {
        assert(out@.pixels.len() == width * height) by (nonlinear_arith)
            requires
                out@.pixels.len() == height * width,
        ;
        assert(out@ =~= h_pass_spec(src@, *uniform));
    }
    out
}

/// Run the vertical blur pass over a whole image.
pub fn vertical_pass(src: &Image, uniform: &BlurRegionsUniform) -> (out: Image)
    requires
        src@.wf(),
        uniform.wf(),
    ensures
        out@ == v_pass_spec(src@, *uniform),
        out@.wf(),
{
    let width = src.width;
    let height = src.height;
    let mut pixels: Vec<u32> = Vec::new();
    let mut y: usize = 0;
    while y < height
        invariant
            src@.wf(),
            uniform.wf(),
            width == src@.width,
            height == src@.height,
            y <= height,
            pixels@.len() == y * width,
            forall|idx: int|
                0 <= idx < pixels@.len() ==> pixels@[idx] == v_pass_pixel(
                    src@,
                    *uniform,
                    idx % width as int,
                    idx / width as int,
                ),
        decreases height - y,
    {
        let mut x: usize = 0;
        while x < width
            invariant
                src@.wf(),
                uniform.wf(),
                width == src@.width,
                height == src@.height,
                y < height,
                x <= width,
                pixels@.len() == y * width + x,
                forall|idx: int|
                    0 <= idx < pixels@.len() ==> pixels@[idx] == v_pass_pixel(
                        src@,
                        *uniform,
                        idx % width as int,
                        idx / width as int,
                    ),
            decreases width - x,
        {
            let value = v_pixel(src, uniform, x, y);
            pixels.push(value);
            proof {
                lemma_fundamental_div_mod_converse(
                    y * width + x,
                    width as int,
                    y as int,
                    x as int,
                );
                assert(y * width + x + 1 <= y * width + width) by (nonlinear_arith)
                    requires
                        x < width,
                ;
            }
            x = x + 1;
        }
        proof {
            assert(y * width + width == (y + 1) * width) by (nonlinear_arith);
        }
        y = y + 1;
    }
    let out = Image { width, height, pixels };
    proof {
        assert(out@.pixels.len() == width * height) by (nonlinear_arith)
            requires
                out@.pixels.len() == height * width,
        ;
        assert(out@ =~= v_pass_spec(src@, *uniform));
    }
    out
}

/// The compositing node of the frame graph.
pub struct BlurRegionsNode;

impl BlurRegionsNode {
    /// Execute one target's compositing work for the frame: when the
    /// uniform snapshot is bound and both pass pipelines have finished
    /// compiling, run the horizontal then the vertical pass and hand back
    /// the new color target; otherwise skip the frame entirely — the
    /// target shows no blur this frame and retries next frame.
    pub fn run(
        src: &Image,
        uniform: Option<&BlurRegionsUniform>,
        horizontal_ready: bool,
        vertical_ready: bool,
    ) -> (out: Option<Image>)
        requires
            src@.wf(),
            uniform matches Option::Some(u) ==> u.wf(),
        ensures
            match out {
                Option::Some(img) => horizontal_ready && vertical_ready && (uniform matches
                    Option::Some(u) && img@ == v_pass_spec(h_pass_spec(src@, *u), *u)
                    && img@.wf()),
                Option::None => uniform is None || !horizontal_ready || !vertical_ready,
            },
    {
        let u = match uniform {
            Option::Some(u) => u,
            Option::None => {
                return None;
            },
        };
        if !horizontal_ready || !vertical_ready {
            return None;
        }
        let intermediate = horizontal_pass(src, u);
        Some(vertical_pass(&intermediate, u))
    }
}

/// A pixel outside every live region is unchanged by the whole
/// compositing pass: both passes test membership identically, so the
/// sampled value equals the source value.
pub proof fn lemma_outside_regions_unchanged(
    src: ImageView,
    uniform: BlurRegionsUniform,
    x: int,
    y: int,
)
    requires
        src.wf(),
        0 <= x < src.width,
        0 <= y < src.height,
        !in_any_region(uniform, x, y),
    ensures
        v_pass_spec(h_pass_spec(src, uniform), uniform).pix(x, y) == src.pix(x, y),
{
    let mid = h_pass_spec(src, uniform);
    let out = v_pass_spec(mid, uniform);
    let idx = y * src.width + x;
    assert(0 <= y * src.width + x < src.width * src.height) by (nonlinear_arith)
        requires
            0 <= x < src.width,
            0 <= y < src.height,
    ;
    lemma_fundamental_div_mod_converse(idx, src.width as int, y, x);
    assert(out.pix(x, y) == v_pass_pixel(mid, uniform, x, y));
    assert(mid.pix(x, y) == h_pass_pixel(src, uniform, x, y));
}

} // verus!
