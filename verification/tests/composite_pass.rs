use blur_regions::camera::BlurRegionsCamera;
use blur_regions::camera::BlurSettings;
use blur_regions::composite::BlurRegionsNode;
use blur_regions::composite::Image;
use blur_regions::geom::CornerRadii;
use blur_regions::geom::Rect;
use blur_regions::geom::Region;
use blur_regions::upload::prepare_uniform;
use blur_regions::upload::BlurRegionsUniform;

fn rect(min_x: i64, min_y: i64, max_x: i64, max_y: i64) -> Rect {
    Rect { min_x, min_y, max_x, max_y }
}

fn radii(a: i64, b: i64, c: i64, d: i64) -> CornerRadii {
    CornerRadii { top_left: a, top_right: b, bottom_right: c, bottom_left: d }
}

fn region(r: Rect, c: CornerRadii) -> Region {
    Region { rect: r, radii: c }
}

#[test]
fn rounded_corner_membership_matches_the_arc() {
    // A 100x50 region with a rounded top-right (radius 20) and bottom-left
    // (radius 30) corner on a 200x100 target.
    let reg = region(rect(10, 10, 110, 60), radii(0, 20, 0, 30));
    // Top-left corner has radius zero: a pixel right at the corner is in.
    assert!(reg.contains(15, 15));
    assert!(reg.contains(12, 12));
    // Beyond the top-right rounding arc: inside the bounding rectangle,
    // but further than 20 from the arc center (90, 30).
    assert!(!reg.contains(91, 10));
    // Within the same corner's arc.
    assert!(reg.contains(91, 11));
    // Bottom-left rounding: (11, 59) is far outside the radius-30 arc
    // around (40, 30).
    assert!(!reg.contains(11, 59));
    // Outside the bounding rectangle entirely.
    assert!(!reg.contains(5, 15));
    assert!(!reg.contains(111, 30));
}

#[test]
fn offscreen_sentinel_matches_no_pixel() {
    let sentinel = region(rect(-1, -1, -1, -1), radii(0, 0, 0, 0));
    for (x, y) in [(0i64, 0i64), (1, 1), (100, 50), (0, 73)] {
        assert!(!sentinel.contains(x, y));
    }
}

#[test]
fn horizontal_then_vertical_pass_averages_the_row_window() {
    // One region covering the whole 4x1 image, blur radius 1 (diameter 2).
    let src = Image { width: 4, height: 1, pixels: vec![0, 4, 8, 100] };
    let uniform = BlurRegionsUniform {
        circle_of_confusion: 2,
        current_regions_count: 1,
        regions: vec![region(rect(0, 0, 3, 0), radii(0, 0, 0, 0))],
    };
    let out = BlurRegionsNode::run(&src, Some(&uniform), true, true).unwrap();
    // Horizontal pass: clamped window averages; the vertical pass over a
    // one-row image leaves each pixel as its own window.
    assert_eq!(out.pixels, vec![2, 4, 37, 54]);
}

#[test]
fn compositing_is_skipped_until_resources_are_ready() {
    let src = Image { width: 2, height: 1, pixels: vec![1, 2] };
    let uniform = BlurRegionsUniform {
        circle_of_confusion: 2,
        current_regions_count: 0,
        regions: vec![],
    };
    assert!(BlurRegionsNode::run(&src, None, true, true).is_none());
    assert!(BlurRegionsNode::run(&src, Some(&uniform), false, true).is_none());
    assert!(BlurRegionsNode::run(&src, Some(&uniform), true, false).is_none());
    assert!(BlurRegionsNode::run(&src, Some(&uniform), true, true).is_some());
}

#[test]
fn five_regions_blur_only_their_own_pixels() {
    // A 16x8 target with capacity 20: five disjoint plain regions; after
    // upload exactly five slots are live and the rest hold the sentinel;
    // the compositing pass leaves every pixel outside the regions exactly
    // as it was.
    let mut camera = BlurRegionsCamera::new(20, BlurSettings { circle_of_confusion: 4 });
    let rects = vec![
        rect(0, 0, 1, 1),
        rect(4, 0, 5, 1),
        rect(8, 0, 9, 1),
        rect(12, 0, 13, 1),
        rect(0, 4, 1, 5),
    ];
    camera.blur_all(&rects);
    let uniform = prepare_uniform(&camera);
    assert_eq!(uniform.current_regions_count, 5);
    let sentinel = region(rect(-1, -1, -1, -1), radii(0, 0, 0, 0));
    for i in 5..20 {
        assert_eq!(uniform.regions[i], sentinel);
    }

    let width = 16usize;
    let height = 8usize;
    let mut pixels = Vec::new();
    for i in 0..width * height {
        pixels.push((i * 7 + 3) as u32);
    }
    let src = Image { width, height, pixels: pixels.clone() };
    let out = BlurRegionsNode::run(&src, Some(&uniform), true, true).unwrap();
    assert_eq!(out.width, width);
    assert_eq!(out.height, height);

    let inside = |x: i64, y: i64| {
        rects
            .iter()
            .any(|r| x >= r.min_x && x <= r.max_x && y >= r.min_y && y <= r.max_y)
    };
    let mut checked_outside = 0;
    for y in 0..height {
        for x in 0..width {
            if !inside(x as i64, y as i64) {
                assert_eq!(out.pixels[y * width + x], pixels[y * width + x]);
                checked_outside += 1;
            }
        }
    }
    assert!(checked_outside > 0);
    // An in-region pixel did change: (0, 0) averages with brighter
    // neighbors in both passes.
    assert_ne!(out.pixels[0], pixels[0]);
}
