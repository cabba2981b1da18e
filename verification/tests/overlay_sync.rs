use blur_regions::camera::BlurRegionsCamera;
use blur_regions::camera::BlurSettings;
use blur_regions::camera::CameraEntry;
use blur_regions::camera::SubmitOutcome;
use blur_regions::geom::CornerRadii;
use blur_regions::geom::Rect;
use blur_regions::overlay::buffer_window_blur;
use blur_regions::overlay::extract_egui_blurs;
use blur_regions::overlay::get_egui_blur_rect;
use blur_regions::overlay::EguiBlurRegions;
use blur_regions::overlay::EguiBlurTarget;

fn rect(min_x: i64, min_y: i64, max_x: i64, max_y: i64) -> Rect {
    Rect { min_x, min_y, max_x, max_y }
}

fn radii(a: i64, b: i64, c: i64, d: i64) -> CornerRadii {
    CornerRadii { top_left: a, top_right: b, bottom_right: c, bottom_left: d }
}

fn entry(id: u64, is_default: bool, capacity: usize) -> CameraEntry {
    CameraEntry {
        id,
        is_default,
        camera: BlurRegionsCamera::new(capacity, BlurSettings { circle_of_confusion: 10 }),
    }
}

#[test]
fn previous_frame_rect_wins_over_current() {
    let previous = rect(10, 10, 50, 40);
    let current = rect(12, 11, 52, 41);
    let (out, _) = get_egui_blur_rect(Some(previous), current, radii(0, 0, 0, 0), 1);
    assert_eq!(out, previous);
}

#[test]
fn first_frame_falls_back_to_current_rect() {
    let current = rect(12, 11, 52, 41);
    let (out, _) = get_egui_blur_rect(None, current, radii(0, 0, 0, 0), 1);
    assert_eq!(out, current);
}

#[test]
fn window_rect_and_rounding_are_scaled_to_pixels() {
    let previous = rect(10, 10, 50, 40);
    let (out, rounding) = get_egui_blur_rect(
        Some(previous),
        rect(0, 0, 1, 1),
        radii(2, 3, 4, 5),
        2,
    );
    assert_eq!(out, rect(20, 20, 100, 80));
    assert_eq!(rounding, radii(4, 6, 8, 10));
}

#[test]
fn explicit_redirect_reaches_only_that_target() {
    let mut overlay = EguiBlurRegions::new(8);
    buffer_window_blur(
        &mut overlay,
        EguiBlurTarget::Entity(2),
        None,
        rect(0, 0, 10, 10),
        radii(0, 0, 0, 0),
        1,
    );
    let mut cameras = vec![entry(1, true, 4), entry(2, false, 4)];
    let dropped = extract_egui_blurs(&mut overlay, &mut cameras);
    assert_eq!(dropped, 0);
    assert_eq!(cameras[0].camera.count(), 0);
    assert_eq!(cameras[1].camera.count(), 1);
    assert_eq!(cameras[1].camera.region_at(0).rect, rect(0, 0, 10, 10));
}

#[test]
fn default_redirect_reaches_the_unique_default_target() {
    let mut overlay = EguiBlurRegions::new(8);
    buffer_window_blur(
        &mut overlay,
        EguiBlurTarget::DefaultCamera,
        None,
        rect(5, 5, 15, 15),
        radii(0, 0, 0, 0),
        1,
    );
    let mut cameras = vec![entry(1, false, 4), entry(2, true, 4)];
    let dropped = extract_egui_blurs(&mut overlay, &mut cameras);
    assert_eq!(dropped, 0);
    assert_eq!(cameras[0].camera.count(), 0);
    assert_eq!(cameras[1].camera.count(), 1);
}

#[test]
fn default_redirect_drops_when_no_target_is_default() {
    let mut overlay = EguiBlurRegions::new(8);
    buffer_window_blur(
        &mut overlay,
        EguiBlurTarget::DefaultCamera,
        None,
        rect(5, 5, 15, 15),
        radii(0, 0, 0, 0),
        1,
    );
    let mut cameras = vec![entry(1, false, 4), entry(2, false, 4)];
    let dropped = extract_egui_blurs(&mut overlay, &mut cameras);
    assert_eq!(dropped, 1);
    assert_eq!(cameras[0].camera.count(), 0);
    assert_eq!(cameras[1].camera.count(), 0);
}

#[test]
fn default_redirect_drops_when_two_targets_are_default() {
    let mut overlay = EguiBlurRegions::new(8);
    buffer_window_blur(
        &mut overlay,
        EguiBlurTarget::DefaultCamera,
        None,
        rect(5, 5, 15, 15),
        radii(0, 0, 0, 0),
        1,
    );
    let mut cameras = vec![entry(1, true, 4), entry(2, true, 4)];
    let dropped = extract_egui_blurs(&mut overlay, &mut cameras);
    assert_eq!(dropped, 1);
    assert_eq!(cameras[0].camera.count(), 0);
    assert_eq!(cameras[1].camera.count(), 0);
}

#[test]
fn reconciliation_clears_the_overlay_context() {
    let mut overlay = EguiBlurRegions::new(8);
    buffer_window_blur(
        &mut overlay,
        EguiBlurTarget::Entity(1),
        None,
        rect(0, 0, 10, 10),
        radii(0, 0, 0, 0),
        1,
    );
    let mut cameras = vec![entry(1, true, 4)];
    extract_egui_blurs(&mut overlay, &mut cameras);
    assert_eq!(overlay.pending_count(), 0);
}

#[test]
fn overlay_buffer_rejects_past_capacity() {
    let mut overlay = EguiBlurRegions::new(1);
    let first = buffer_window_blur(
        &mut overlay,
        EguiBlurTarget::DefaultCamera,
        None,
        rect(0, 0, 10, 10),
        radii(0, 0, 0, 0),
        1,
    );
    let second = buffer_window_blur(
        &mut overlay,
        EguiBlurTarget::DefaultCamera,
        None,
        rect(20, 0, 30, 10),
        radii(0, 0, 0, 0),
        1,
    );
    assert_eq!(first, SubmitOutcome::Stored);
    assert_eq!(second, SubmitOutcome::RejectedFull);
    assert_eq!(overlay.pending_count(), 1);
}

#[test]
fn two_windows_and_a_dead_redirect_land_as_addressed() {
    // Two overlay windows: one redirected to target 1 explicitly, one to
    // the default target, where target 1 is marked default; a third window
    // redirects to an identifier no camera has.
    let mut overlay = EguiBlurRegions::new(8);
    buffer_window_blur(
        &mut overlay,
        EguiBlurTarget::Entity(1),
        Some(rect(0, 0, 10, 10)),
        rect(1, 1, 11, 11),
        radii(0, 0, 0, 0),
        1,
    );
    buffer_window_blur(
        &mut overlay,
        EguiBlurTarget::DefaultCamera,
        None,
        rect(20, 20, 30, 30),
        radii(0, 0, 0, 0),
        1,
    );
    buffer_window_blur(
        &mut overlay,
        EguiBlurTarget::Entity(99),
        None,
        rect(40, 40, 50, 50),
        radii(0, 0, 0, 0),
        1,
    );
    let mut cameras = vec![entry(1, true, 8), entry(2, false, 8)];
    let dropped = extract_egui_blurs(&mut overlay, &mut cameras);
    assert_eq!(cameras[0].camera.count(), 2);
    assert_eq!(cameras[0].camera.region_at(0).rect, rect(0, 0, 10, 10));
    assert_eq!(cameras[0].camera.region_at(1).rect, rect(20, 20, 30, 30));
    assert_eq!(cameras[1].camera.count(), 0);
    assert_eq!(dropped, 1);
    assert_eq!(overlay.pending_count(), 0);
}
