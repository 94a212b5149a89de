//! Choices about the surface that frames are drawn to.
use vstd::prelude::*;

verus! {

/// The pixel formats that matter for the choice of one.
#[derive(Clone, Copy, PartialEq, Eq, Structural, Debug)]
pub enum SurfaceFormat {
    Bgra8Unorm,
    Rgba8Unorm,
    Other,
}

/// The ways of compositing that matter for the choice of one.
#[derive(Clone, Copy, PartialEq, Eq, Structural, Debug)]
pub enum AlphaMode {
    PreMultiplied,
    Other,
}

impl SurfaceFormat {
    /// A plain (non-sRGB) format, in which shader colors map directly.
    pub open spec fn is_plain(self) -> bool {
        self == SurfaceFormat::Bgra8Unorm || self == SurfaceFormat::Rgba8Unorm
    }
}

/// Prefers a plain (non-sRGB) UNORM format so shader colors map directly: gives the index of the
/// first one, or of the first format where there is none.
pub fn choose_format(formats: &[SurfaceFormat]) -> (choice: usize)
    requires
        formats@.len() > 0,
    ensures
        choice < formats@.len(),
        (exists|i: int| 0 <= i < formats@.len() && (#[trigger] formats@[i]).is_plain())
            ==> formats@[choice as int].is_plain(),
        !formats@[choice as int].is_plain() ==> choice == 0,
        forall|i: int| 0 <= i < choice ==> !(#[trigger] formats@[i]).is_plain(),
{
    let mut i: usize = 0;
    while i < formats.len()
        invariant
            formats@.len() > 0,
            i <= formats.len(),
            forall|k: int| 0 <= k < i ==> !(#[trigger] formats@[k]).is_plain(),
        decreases formats.len() - i,
    {
        if formats[i] == SurfaceFormat::Bgra8Unorm || formats[i] == SurfaceFormat::Rgba8Unorm {
            return i;
        }
        i = i + 1;
    }
    0
}

/// Prefers premultiplied alpha for the translucent surface: gives the index of the first such
/// mode, or of the first mode where there is none.
pub fn choose_alpha_mode(modes: &[AlphaMode]) -> (choice: usize)
    requires
        modes@.len() > 0,
    ensures
        choice < modes@.len(),
        (exists|i: int| 0 <= i < modes@.len() && #[trigger] modes@[i] == AlphaMode::PreMultiplied)
            ==> modes@[choice as int] == AlphaMode::PreMultiplied,
        modes@[choice as int] != AlphaMode::PreMultiplied ==> choice == 0,
        forall|i: int| 0 <= i < choice ==> #[trigger] modes@[i] != AlphaMode::PreMultiplied,
{
    let mut i: usize = 0;
    while i < modes.len()
        invariant
            modes@.len() > 0,
            i <= modes.len(),
            forall|k: int| 0 <= k < i ==> #[trigger] modes@[k] != AlphaMode::PreMultiplied,
        decreases modes.len() - i,
    {
        if modes[i] == AlphaMode::PreMultiplied {
            return i;
        }
        i = i + 1;
    }
    0
}

/// What came of asking the surface for its next frame.
#[derive(Clone, Copy, PartialEq, Eq, Structural, Debug)]
pub enum FrameStatus {
    Success,
    Suboptimal,
    Outdated,
    Lost,
    Other,
}

/// What to do about a frame.
#[derive(Clone, Copy, PartialEq, Eq, Structural, Debug)]
pub enum FrameStep {
    /// Draw it.
    Draw,
    /// Configure the surface anew and wait for the next one.
    Configure,
    /// Let it pass.
    Skip,
}

impl FrameStatus {
    /// What to do about a frame in this state.
    pub open spec fn calls_for(self) -> FrameStep {
        match self {
            FrameStatus::Success | FrameStatus::Suboptimal => FrameStep::Draw,
            FrameStatus::Outdated | FrameStatus::Lost => FrameStep::Configure,
            FrameStatus::Other => FrameStep::Skip,
        }
    }
}

} // verus!
