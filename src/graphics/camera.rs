//! How a camera's `size` maps onto the window's two dimensions.
use vstd::prelude::*;

verus! {

/// Different ways to calculate camera width and height from `size`.
#[derive(Debug, Copy, Clone, PartialEq, Eq, Structural)]
pub enum CameraScaleMode {
    /// `size` is always the width (horizontal field of view).
    Width,
    /// `size` is always the height (vertical field of view).
    Height,
    /// `size` is the width if the window is narrower than high, else the
    /// height.
    Min,
    /// `size` is the width if the window is wider than high, else the
    /// height.
    Max,
}

impl CameraScaleMode {
    pub open spec fn spec_size_is_width(self, window_width: u32, window_height: u32) -> bool {
        match self {
            CameraScaleMode::Width => true,
            CameraScaleMode::Height => false,
            CameraScaleMode::Min => window_width < window_height,
            CameraScaleMode::Max => window_width > window_height,
        }
    }

    /// Whether the camera's `size` gives its width, the other extent then
    /// following from the window's aspect ratio; otherwise it gives the
    /// height.
    pub fn size_is_width(self, window_width: u32, window_height: u32) -> (r: bool)
        ensures
            r == self.spec_size_is_width(window_width, window_height),
    {
        match self {
            CameraScaleMode::Width => true,
            CameraScaleMode::Height => false,
            CameraScaleMode::Min => window_width < window_height,
            CameraScaleMode::Max => window_width > window_height,
        }
    }
}

} // verus!
