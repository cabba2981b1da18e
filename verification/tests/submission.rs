use blur_regions::camera::clear_blur_regions;
use blur_regions::camera::BlurRegionsCamera;
use blur_regions::camera::BlurSettings;
use blur_regions::camera::CameraEntry;
use blur_regions::camera::SubmitOutcome;
use blur_regions::camera::DEFAULT_MAX_BLUR_REGIONS_COUNT;
use blur_regions::geom::CornerRadii;
use blur_regions::geom::Rect;
use blur_regions::geom::Region;
use blur_regions::upload::prepare_uniform;

fn rect(min_x: i64, min_y: i64, max_x: i64, max_y: i64) -> Rect {
    Rect { min_x, min_y, max_x, max_y }
}

fn radii(a: i64, b: i64, c: i64, d: i64) -> CornerRadii {
    CornerRadii { top_left: a, top_right: b, bottom_right: c, bottom_left: d }
}

fn zero_radii() -> CornerRadii {
    radii(0, 0, 0, 0)
}

#[test]
fn count_tracks_each_submission() {
    let mut camera = BlurRegionsCamera::new(5, BlurSettings { circle_of_confusion: 10 });
    assert_eq!(camera.count(), 0);
    for i in 0..5 {
        let outcome = camera.blur(rect(i, i, i + 10, i + 10));
        assert_eq!(outcome, SubmitOutcome::Stored);
        assert_eq!(camera.count(), (i + 1) as usize);
    }
}

#[test]
fn submission_past_capacity_is_rejected_and_changes_nothing() {
    let mut camera = BlurRegionsCamera::new(2, BlurSettings { circle_of_confusion: 10 });
    assert_eq!(camera.blur(rect(0, 0, 10, 10)), SubmitOutcome::Stored);
    assert_eq!(camera.blur(rect(20, 0, 30, 10)), SubmitOutcome::Stored);
    let outcome = camera.rounded_blur(rect(40, 0, 50, 10), radii(1, 2, 3, 4));
    assert_eq!(outcome, SubmitOutcome::RejectedFull);
    assert_eq!(camera.count(), 2);
    assert_eq!(camera.region_at(0).rect, rect(0, 0, 10, 10));
    assert_eq!(camera.region_at(1).rect, rect(20, 0, 30, 10));
}

#[test]
fn region_reads_back_exactly_as_submitted() {
    let mut camera = BlurRegionsCamera::new(4, BlurSettings { circle_of_confusion: 10 });
    let r = rect(17, 23, 145, 260);
    let corners = radii(3, 5, 7, 11);
    camera.rounded_blur(r, corners);
    let stored = camera.region_at(0);
    assert_eq!(stored.rect.min_x, 17);
    assert_eq!(stored.rect.min_y, 23);
    assert_eq!(stored.rect.max_x, 145);
    assert_eq!(stored.rect.max_y, 260);
    assert_eq!(stored.radii, corners);
}

#[test]
fn blur_all_keeps_order_and_stops_at_capacity() {
    let mut camera = BlurRegionsCamera::new(3, BlurSettings { circle_of_confusion: 10 });
    let rects = vec![
        rect(0, 0, 1, 1),
        rect(2, 0, 3, 1),
        rect(4, 0, 5, 1),
        rect(6, 0, 7, 1),
        rect(8, 0, 9, 1),
    ];
    camera.blur_all(&rects);
    assert_eq!(camera.count(), 3);
    assert_eq!(camera.region_at(0).rect, rect(0, 0, 1, 1));
    assert_eq!(camera.region_at(1).rect, rect(2, 0, 3, 1));
    assert_eq!(camera.region_at(2).rect, rect(4, 0, 5, 1));
}

#[test]
fn rounded_blur_all_keeps_pairs_in_order() {
    let mut camera = BlurRegionsCamera::new(4, BlurSettings { circle_of_confusion: 10 });
    let entries = vec![
        (rect(0, 0, 1, 1), radii(1, 0, 0, 0)),
        (rect(2, 0, 3, 1), radii(0, 2, 0, 0)),
    ];
    camera.rounded_blur_all(&entries);
    assert_eq!(camera.count(), 2);
    assert_eq!(camera.region_at(0).radii, radii(1, 0, 0, 0));
    assert_eq!(camera.region_at(1).radii, radii(0, 2, 0, 0));
}

#[test]
fn frame_lifecycle_clears_every_target() {
    let mut cameras = vec![
        CameraEntry {
            id: 1,
            is_default: true,
            camera: BlurRegionsCamera::new(3, BlurSettings { circle_of_confusion: 10 }),
        },
        CameraEntry {
            id: 2,
            is_default: false,
            camera: BlurRegionsCamera::new(2, BlurSettings { circle_of_confusion: 20 }),
        },
    ];
    cameras[0].camera.blur(rect(0, 0, 10, 10));
    cameras[0].camera.blur(rect(0, 0, 20, 20));
    cameras[1].camera.blur(rect(5, 5, 6, 6));
    clear_blur_regions(&mut cameras);
    assert_eq!(cameras[0].camera.count(), 0);
    assert_eq!(cameras[1].camera.count(), 0);
    // Every slot is back to the offscreen sentinel.
    let sentinel = Region {
        rect: rect(-1, -1, -1, -1),
        radii: zero_radii(),
    };
    for i in 0..3 {
        assert_eq!(cameras[0].camera.region_at(i), sentinel);
    }
}

#[test]
fn default_camera_has_default_capacity_and_settings() {
    let camera = BlurRegionsCamera::default();
    assert_eq!(camera.capacity(), DEFAULT_MAX_BLUR_REGIONS_COUNT);
    assert_eq!(camera.count(), 0);
    assert_eq!(camera.settings().circle_of_confusion, 100);
}

#[test]
fn settings_can_be_replaced_at_runtime() {
    let mut camera = BlurRegionsCamera::default();
    camera.set_settings(BlurSettings { circle_of_confusion: 42 });
    assert_eq!(camera.settings().circle_of_confusion, 42);
}

#[test]
fn uniform_mirrors_camera_exactly() {
    let mut camera = BlurRegionsCamera::new(4, BlurSettings { circle_of_confusion: 33 });
    camera.rounded_blur(rect(1, 2, 3, 4), radii(1, 1, 1, 1));
    camera.blur(rect(10, 20, 30, 40));
    let uniform = prepare_uniform(&camera);
    assert_eq!(uniform.circle_of_confusion, 33);
    assert_eq!(uniform.current_regions_count, 2);
    assert_eq!(uniform.regions.len(), 4);
    assert_eq!(uniform.regions[0].rect, rect(1, 2, 3, 4));
    assert_eq!(uniform.regions[1].rect, rect(10, 20, 30, 40));
    let sentinel = Region {
        rect: rect(-1, -1, -1, -1),
        radii: zero_radii(),
    };
    assert_eq!(uniform.regions[2], sentinel);
    assert_eq!(uniform.regions[3], sentinel);
}
