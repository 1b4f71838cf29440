//! Decision core of the desktop window loop. The rendering loop itself
//! lives outside the library; each frame it hands back a [`RunState`] and
//! asks what to do: keep running, and which of the two window shapes to
//! switch to.

use vstd::prelude::*;

verus! {

/// What one frame of the search window reported back.
#[derive(Clone, Copy, Debug, PartialEq, Eq, Structural)]
pub struct RunState {
    /// Whether the application should keep running.
    pub status: bool,
    /// Whether the result list is on screen, below the search field.
    pub showing_results: bool,
}

/// The window shapes the loop distinguishes: the compact search bar, the
/// taller shape with the result list, or any other size the window was
/// given from elsewhere.
#[derive(Clone, Copy, Debug, PartialEq, Eq, Structural)]
pub enum WindowDims {
    Search,
    Results,
    Other,
}

/// The shape the frame asks for: tall while results are showing, compact
/// otherwise.
pub open spec fn spec_desired_dims(rs: RunState) -> WindowDims {
    if rs.showing_results {
        WindowDims::Results
    } else {
        WindowDims::Search
    }
}

/// The resize the loop performs, if any: it only ever switches between the
/// two known shapes, and leaves a window of any other size alone.
pub open spec fn spec_resize(rs: RunState, current: WindowDims) -> Option<WindowDims> {
    if rs.showing_results && current is Search {
        Some(WindowDims::Results)
    } else if !rs.showing_results && current is Results {
        Some(WindowDims::Search)
    } else {
        None
    }
}

/// The shape the frame asks for.
pub fn desired_dims(rs: &RunState) -> (w: WindowDims)
    ensures
        w == spec_desired_dims(*rs),
{
    if rs.showing_results {
        WindowDims::Results
    } else {
        WindowDims::Search
    }
}

/// Which resize to perform after a frame, if any. A resize happens exactly
/// when the window has the known shape the frame no longer asks for.
pub fn resize_action(rs: &RunState, current: WindowDims) -> (a: Option<WindowDims>)
    ensures
        a == spec_resize(*rs, current),
        (a matches Some(w) ==> w == spec_desired_dims(*rs) && w != current),
{
    if rs.showing_results {
        match current {
            WindowDims::Search => Some(WindowDims::Results),
            _ => None,
        }
    } else {
        match current {
            WindowDims::Results => Some(WindowDims::Search),
            _ => None,
        }
    }
}

/// Whether the loop goes on to the next frame: only while the window is
/// open and the frame reported a running status.
pub fn continue_running(window_open: bool, rs: &RunState) -> (b: bool)
    ensures
        b == (window_open && rs.status),
{
    window_open && rs.status
}

} // verus!
