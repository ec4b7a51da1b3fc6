//! Frame-loop dispatch: what the surrounding loop should do with each
//! notification from its event source.

use vstd::prelude::*;

verus! {

/// A notification delivered by the event source driving the render loop.
#[derive(Clone, Copy, Debug, PartialEq, Eq, Structural)]
pub enum SurfaceEvent {
    /// The redraw timer fired (or the loop just started): time to render.
    RedrawTick,
    /// The user asked to close the window.
    CloseRequested,
    /// The surface was resized to the given width and height.
    Resize(u32, u32),
    /// Anything else the event source reports.
    Other,
}

/// What the surrounding loop does in response to one event.
#[derive(Clone, Copy, Debug, PartialEq, Eq, Structural)]
pub enum LoopAction {
    /// Clear the frame, rasterize, present.
    DrawFrame,
    /// Leave the loop.
    Exit,
    /// Do nothing this round.
    Ignore,
}

/// The render loop's policy: draw on a redraw tick, exit on a close request,
/// and sit out everything else (a resize needs no work of its own here, since
/// the next tick redraws the whole frame).
pub fn dispatch_event(e: SurfaceEvent) -> (a: LoopAction)
    ensures
        a == (match e {
            SurfaceEvent::RedrawTick => LoopAction::DrawFrame,
            SurfaceEvent::CloseRequested => LoopAction::Exit,
            SurfaceEvent::Resize(_, _) => LoopAction::Ignore,
            SurfaceEvent::Other => LoopAction::Ignore,
        }),
{
    match e {
        SurfaceEvent::RedrawTick => LoopAction::DrawFrame,
        SurfaceEvent::CloseRequested => LoopAction::Exit,
        SurfaceEvent::Resize(_, _) => LoopAction::Ignore,
        SurfaceEvent::Other => LoopAction::Ignore,
    }
}

} // verus!
