//! Decisions around the surface that frames are drawn on.
use vstd::prelude::*;
use vstd::string::StringExecFns;

verus! {

/// Why there is no frame to draw on although one was due.
#[derive(Debug)]
pub enum FrameError {
    /// The graphics device is gone.
    Lost,
    /// Anything else.
    Other(String),
}

/// What the surface answers when it is asked for the next frame.
#[derive(Clone, Copy, Debug, PartialEq, Eq, Structural)]
pub enum SurfaceStatus {
    Success,
    Suboptimal,
    Timeout,
    Occluded,
    Outdated,
    Lost,
    Validation,
}

/// What follows from the answer of the surface.
#[derive(Debug)]
pub struct FrameDecision {
    /// The surface has to be configured again.
    pub reconfigure: bool,
    /// Draw, or report an error. `None` where there is nothing to draw and
    /// nothing wrong: the next redraw tries again.
    pub frame: Option<Result<(), FrameError>>,
}

/// Decides what to do with the answer of the surface.
pub fn acquire_frame(status: SurfaceStatus) -> (r: FrameDecision)
    ensures
        r.reconfigure <==> status == SurfaceStatus::Suboptimal || status == SurfaceStatus::Outdated,
        r.frame is None <==> status == SurfaceStatus::Timeout || status == SurfaceStatus::Occluded
            || status == SurfaceStatus::Outdated,
        r.frame == Some(Ok::<(), FrameError>(())) <==> status == SurfaceStatus::Success || status
            == SurfaceStatus::Suboptimal,
        r.frame == Some(Err::<(), FrameError>(FrameError::Lost)) <==> status == SurfaceStatus::Lost,
        status == SurfaceStatus::Validation ==> (r.frame matches Some(Err(FrameError::Other(text)))
            && text@ == "error de validación al pedir la textura de la surface"@),
{
    match status {
        SurfaceStatus::Success => FrameDecision { reconfigure: false, frame: Some(Ok(())) },
        SurfaceStatus::Suboptimal => FrameDecision { reconfigure: true, frame: Some(Ok(())) },
        SurfaceStatus::Timeout | SurfaceStatus::Occluded => FrameDecision {
            reconfigure: false,
            frame: None,
        },
        SurfaceStatus::Outdated => FrameDecision { reconfigure: true, frame: None },
        SurfaceStatus::Lost => FrameDecision { reconfigure: false, frame: Some(Err(FrameError::Lost)) },
        SurfaceStatus::Validation => FrameDecision {
            reconfigure: false,
            frame: Some(
                Err(
                    FrameError::Other(
                        String::from_str("error de validación al pedir la textura de la surface"),
                    ),
                ),
            ),
        },
    }
}

/// What the window does about a frame that failed.
#[derive(Clone, Copy, Debug, PartialEq, Eq, Structural)]
pub enum FrameReaction {
    Nothing,
    /// Set the surface up again in its present size.
    Resize,
    Warn,
}

/// What the window does about the outcome of a frame.
pub fn after_frame(outcome: &Result<(), FrameError>) -> (r: FrameReaction)
    ensures
        r == match *outcome {
            Ok(_) => FrameReaction::Nothing,
            Err(FrameError::Lost) => FrameReaction::Resize,
            Err(FrameError::Other(_)) => FrameReaction::Warn,
        },
{
    match outcome {
        Ok(_) => FrameReaction::Nothing,
        Err(FrameError::Lost) => FrameReaction::Resize,
        Err(FrameError::Other(_)) => FrameReaction::Warn,
    }
}

/// The size of the surface after the window was resized. A window without
/// area, as a minimised one is, leaves the surface as it was.
pub fn resize(asked: (u32, u32)) -> (r: Option<(u32, u32)>)
    ensures
        r is Some <==> asked.0 > 0 && asked.1 > 0,
        r is Some ==> r->0 == asked,
{
    if asked.0 > 0 && asked.1 > 0 {
        Some(asked)
    } else {
        None
    }
}

/// The size of the depth texture: that of the surface, and never without area.
pub fn depth_size(width: u32, height: u32) -> (r: (u32, u32))
    ensures
        r.0 == if width == 0 {
            1
        } else {
            width
        },
        r.1 == if height == 0 {
            1
        } else {
            height
        },
{
    let w: u32 = if width == 0 {
        1
    } else {
        width
    };
    let h: u32 = if height == 0 {
        1
    } else {
        height
    };
    (w, h)
}

} // verus!
