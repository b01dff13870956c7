//! The loading screen: it fades its text while files load, and hands over to
//! the next screen once nothing is left to load.
use vstd::prelude::*;

verus! {

/// What the loading screen does after a frame.
#[derive(PartialEq, Eq, Debug, Copy, Clone, Structural)]
pub enum LoadingStep {
    /// Files are still loading: stay, and fade the text.
    Continue,
    /// Nothing is left to load and no screen follows: close.
    Pop,
    /// Nothing is left to load: show the next screen instead.
    Replace,
}

/// The step after a frame: stay while files are left to load, then hand over
/// to the next screen, or close when there is none.
pub fn loading_step(files_left: bool, has_next: bool) -> (r: LoadingStep)
    ensures
        r == (if files_left {
            LoadingStep::Continue
        } else if has_next {
            LoadingStep::Replace
        } else {
            LoadingStep::Pop
        }),
{
    if files_left {
        LoadingStep::Continue
    } else if has_next {
        LoadingStep::Replace
    } else {
        LoadingStep::Pop
    }
}

/// The text's alpha after `elapsed_ms` milliseconds: it fades down to zero,
/// then starts again from fully opaque.
pub fn loading_alpha(alpha: u8, elapsed_ms: u8) -> (r: u8)
    ensures
        r == (if alpha == 0 {
            255
        } else if alpha >= elapsed_ms {
            alpha - elapsed_ms
        } else {
            0
        }),
{
    if alpha == 0 {
        255
    } else {
        alpha.saturating_sub(elapsed_ms)
    }
}

} // verus!
