//! The per-surface lifecycle model.
//!
//! A native surface starts with no render context; the first draw-frame
//! callback creates one lazily, and it is never created again for the same
//! surface. The host reports the surface's raw pixel size separately,
//! through the surface-changed callback, and a frame that arrives before
//! any such report paints into a zero-sized window.

use vstd::prelude::*;

verus! {

/// What a native surface knows between host callbacks: whether its lazy
/// render context exists yet, and the last raw pixel size reported.
pub struct NativeSurface {
    renderer_ready: bool,
    raw_size: Option<(i32, i32)>,
}

/// A raw dimension clamped to the non-negative range the GL viewport takes.
pub open spec fn clamp_dim(x: int) -> u32 {
    if x < 0 {
        0
    } else {
        x as u32
    }
}

/// The window size a frame paints into, given the last reported raw size.
pub open spec fn spec_window_size(raw: Option<(i32, i32)>) -> (u32, u32) {
    match raw {
        Option::None => (0u32, 0u32),
        Option::Some((w, h)) => (clamp_dim(w as int), clamp_dim(h as int)),
    }
}

impl NativeSurface {
    /// Whether the lazily created render context exists.
    pub closed spec fn renderer_created(self) -> bool {
        self.renderer_ready
    }

    /// The raw pixel size last reported by the host, if any.
    pub closed spec fn reported_size(self) -> Option<(i32, i32)> {
        self.raw_size
    }

    /// A fresh surface: no render context, no size reported yet.
    pub fn new() -> (s: Self)
        ensures
            !s.renderer_created(),
            s.reported_size() is None,
    {
        NativeSurface { renderer_ready: false, raw_size: None }
    }

    /// Records the raw pixel size the host reports on a surface change.
    pub fn set_surface_size(&mut self, width: i32, height: i32)
        ensures
            final(self).reported_size() == Some((width, height)),
            final(self).renderer_created() == old(self).renderer_created(),
    {
        self.raw_size = Some((width, height));
    }

    /// Begins a frame: if the render context does not exist yet, marks it
    /// created and tells the caller to build it now. A context is created
    /// at most once per surface; on every later frame the surface is left
    /// exactly as it was.
    pub fn begin_frame(&mut self) -> (created: bool)
        ensures
            final(self).renderer_created(),
            created == !old(self).renderer_created(),
            old(self).renderer_created() ==> *final(self) == *old(self),
            final(self).reported_size() == old(self).reported_size(),
    {
        if self.renderer_ready {
            false
        } else {
            self.renderer_ready = true;
            true
        }
    }

    /// The window size the frame paints into: the reported size with each
    /// dimension clamped to zero from below, or zero-by-zero when the host
    /// has not reported a size yet.
    pub fn window_size_or_default(&self) -> (r: (u32, u32))
        ensures
            r == spec_window_size(self.reported_size()),
    {
        match self.raw_size {
            None => (0u32, 0u32),
            Some((w, h)) => {
                let cw: u32 = if w < 0 {
                    0u32
                } else {
                    w as u32
                };
                let ch: u32 = if h < 0 {
                    0u32
                } else {
                    h as u32
                };
                (cw, ch)
            },
        }
    }

    /// Whether the render context exists, observably.
    pub fn has_renderer(&self) -> (b: bool)
        ensures
            b == self.renderer_created(),
    {
        self.renderer_ready
    }
}

/// The draw loop drives a single root viewport; more than one is refused.
pub fn single_viewport(count: usize) -> (ok: bool)
    ensures
        ok == (count <= 1),
{
    count <= 1
}

} // verus!
