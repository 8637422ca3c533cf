use native_gl_surface::registry::SurfaceRegistry;
use native_gl_surface::surface::{single_viewport, NativeSurface};

#[test]
fn new_surface_has_nothing() {
    let surface = NativeSurface::new();
    assert!(!surface.has_renderer());
    assert_eq!(surface.window_size_or_default(), (0, 0));
}

#[test]
fn renderer_created_at_most_once() {
    let mut surface = NativeSurface::new();
    assert!(surface.begin_frame());
    assert!(surface.has_renderer());
    assert!(!surface.begin_frame());
    assert!(surface.has_renderer());
}

#[test]
fn reported_size_becomes_window_size() {
    let mut surface = NativeSurface::new();
    surface.begin_frame();
    surface.set_surface_size(800, 600);
    assert_eq!(surface.window_size_or_default(), (800, 600));
    assert!(surface.has_renderer());
}

#[test]
fn negative_dimensions_clamp_to_zero() {
    let mut surface = NativeSurface::new();
    surface.set_surface_size(-5, 10);
    assert_eq!(surface.window_size_or_default(), (0, 10));
    surface.set_surface_size(-1, -1);
    assert_eq!(surface.window_size_or_default(), (0, 0));
}

#[test]
fn only_one_viewport_is_supported() {
    assert!(single_viewport(0));
    assert!(single_viewport(1));
    assert!(!single_viewport(2));
}

#[test]
fn created_handle_is_live_and_non_zero() {
    let mut registry = SurfaceRegistry::new();
    assert_eq!(registry.handle_count(), 0);
    let handle = registry.create().unwrap();
    assert_ne!(handle, 0);
    assert!(registry.contains(handle));
    assert_eq!(registry.handle_count(), 1);
}

#[test]
fn handles_are_distinct() {
    let mut registry = SurfaceRegistry::new();
    let first = registry.create().unwrap();
    let second = registry.create().unwrap();
    assert_ne!(first, second);
}

#[test]
fn destroy_invalidates_the_handle() {
    let mut registry = SurfaceRegistry::new();
    let handle = registry.create().unwrap();
    assert!(registry.destroy(handle));
    assert!(!registry.contains(handle));
    assert!(!registry.destroy(handle));
    assert_eq!(registry.handle_count(), 0);
}

#[test]
fn destroying_an_unknown_handle_changes_nothing() {
    let mut registry = SurfaceRegistry::new();
    let handle = registry.create().unwrap();
    assert!(!registry.destroy(handle + 1));
    assert!(registry.contains(handle));
}

#[test]
fn destroy_leaves_other_surfaces_alone() {
    let mut registry = SurfaceRegistry::new();
    let first = registry.create().unwrap();
    let second = registry.create().unwrap();
    registry.set_surface_size(second, 320, 240);
    assert!(registry.destroy(first));
    assert!(registry.contains(second));
    assert_eq!(registry.window_size(second), Some((320, 240)));
    let third = registry.create().unwrap();
    assert_ne!(third, first);
    assert_ne!(third, second);
}

#[test]
fn frames_through_the_registry() {
    let mut registry = SurfaceRegistry::new();
    let handle = registry.create().unwrap();
    assert_eq!(registry.begin_frame(handle), Some(true));
    assert_eq!(registry.begin_frame(handle), Some(false));
    assert_eq!(registry.begin_frame(handle + 7), None);
}

#[test]
fn sizes_through_the_registry() {
    let mut registry = SurfaceRegistry::new();
    let handle = registry.create().unwrap();
    assert_eq!(registry.window_size(handle), Some((0, 0)));
    assert!(registry.set_surface_size(handle, 640, 480));
    assert_eq!(registry.window_size(handle), Some((640, 480)));
    assert!(!registry.set_surface_size(handle + 1, 1, 1));
    assert_eq!(registry.window_size(handle + 1), None);
}
