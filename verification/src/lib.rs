//! Screen-space blur regions: a verified bookkeeping and compositing model.
//!
//! An application marks axis-aligned, optionally rounded, rectangles of the
//! screen to be rendered blurred. Each render target (camera/viewport) owns a
//! bounded list of such regions, refilled every frame by three producer
//! classes: structured UI layout, immediate-mode overlay windows, and direct
//! calls. Once per frame the list is mirrored into a GPU-style uniform
//! snapshot and consumed by a two-pass separable blur whose region membership
//! test this crate defines exactly, in integer pixel space.

pub mod camera;
pub mod composite;
pub mod geom;
pub mod graph;
pub mod overlay;
pub mod ui;
pub mod upload;

pub use camera::BlurRegion;
pub use camera::BlurRegionsCamera;
pub use camera::DefaultBlurRegionsCamera;
