use blur_regions::camera::BlurRegionsCamera;
use blur_regions::camera::BlurSettings;
use blur_regions::geom::CornerRadii;
use blur_regions::ui::compute_blur_regions;
use blur_regions::ui::resolve_border_radius;
use blur_regions::ui::UiNode;

fn node(center_x: i64, center_y: i64, width: i64, height: i64, visible: bool) -> UiNode {
    UiNode {
        center_x,
        center_y,
        width,
        height,
        border_radius: CornerRadii { top_left: 0, top_right: 0, bottom_right: 0, bottom_left: 0 },
        visible,
    }
}

#[test]
fn declared_radius_within_bounds_is_scaled() {
    // Element 100x50: half the shorter side is 25; 20 fits, scaled by 2.
    assert_eq!(resolve_border_radius(20, 100, 50, 2), 40);
}

#[test]
fn oversized_radius_is_clamped_to_half_the_shorter_side() {
    // Declared 100 exceeds 25 = min(100, 50) / 2, so 25 is what scales.
    assert_eq!(resolve_border_radius(100, 100, 50, 2), 50);
    assert_eq!(resolve_border_radius(100, 100, 50, 1), 25);
}

#[test]
fn negative_declared_radius_resolves_to_zero() {
    assert_eq!(resolve_border_radius(-5, 100, 50, 3), 0);
}

#[test]
fn resolved_radius_scales_linearly_with_the_scale_factor() {
    for declared in [0i64, 7, 25, 60] {
        let at_one = resolve_border_radius(declared, 80, 64, 1);
        for k in [2u32, 3, 5] {
            assert_eq!(resolve_border_radius(declared, 80, 64, k), at_one * k as i64);
        }
    }
}

#[test]
fn ui_synchronizer_builds_rect_from_center_and_size() {
    let mut camera = BlurRegionsCamera::new(4, BlurSettings { circle_of_confusion: 10 });
    let nodes = vec![node(50, 30, 20, 10, true)];
    compute_blur_regions(&nodes, 2, &mut camera);
    assert_eq!(camera.count(), 1);
    let region = camera.region_at(0);
    assert_eq!(region.rect.min_x, 80);
    assert_eq!(region.rect.min_y, 50);
    assert_eq!(region.rect.max_x, 120);
    assert_eq!(region.rect.max_y, 70);
}

#[test]
fn ui_synchronizer_skips_invisible_elements() {
    let mut camera = BlurRegionsCamera::new(4, BlurSettings { circle_of_confusion: 10 });
    let nodes = vec![
        node(10, 10, 4, 4, true),
        node(50, 50, 4, 4, false),
        node(90, 90, 4, 4, true),
    ];
    compute_blur_regions(&nodes, 1, &mut camera);
    assert_eq!(camera.count(), 2);
    assert_eq!(camera.region_at(0).rect.min_x, 8);
    assert_eq!(camera.region_at(1).rect.min_x, 88);
}

#[test]
fn ui_synchronizer_resolves_and_scales_corner_radii() {
    let mut camera = BlurRegionsCamera::new(4, BlurSettings { circle_of_confusion: 10 });
    let mut flagged = node(100, 100, 60, 40, true);
    flagged.border_radius =
        CornerRadii { top_left: 5, top_right: 100, bottom_right: -3, bottom_left: 20 };
    let nodes = vec![flagged];
    compute_blur_regions(&nodes, 3, &mut camera);
    let region = camera.region_at(0);
    // Half the shorter side is 20; each radius clamps then scales by 3.
    assert_eq!(region.radii.top_left, 15);
    assert_eq!(region.radii.top_right, 60);
    assert_eq!(region.radii.bottom_right, 0);
    assert_eq!(region.radii.bottom_left, 60);
}
