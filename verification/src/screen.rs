use vstd::prelude::*;

verus! {

/// The size of the screen in pixels.
#[derive(Debug, Clone, Copy)]
pub struct ScreenState {
    pub width: u64,
    pub height: u64,
}

impl ScreenState {
    /// Builds the screen state from the display size that the platform
    /// reported; when no size could be read the screen is taken as 0 x 0.
    pub fn new(display_size: Option<(u64, u64)>) -> (s: Self)
        ensures
            match display_size {
                Some((w, h)) => s.width == w && s.height == h,
                None => s.width == 0 && s.height == 0,
            },
    {
        let (width, height) = match display_size {
            Some(size) => size,
            None => (0, 0),
        };
        ScreenState { width, height }
    }
}

} // verus!
