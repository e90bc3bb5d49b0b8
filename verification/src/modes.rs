use vstd::prelude::*;

verus! {

/// The tab shown in the viewer's side panel.
#[derive(PartialEq, Eq, Structural, Clone, Copy, Debug)]
pub enum AppTab {
    Controls,
    Charts,
}

/// What a click in the 3D view does.
#[derive(PartialEq, Eq, Structural, Clone, Copy, Debug)]
pub enum InteractionMode {
    Camera,
    Measuring,
}

/// How the points of the cloud are coloured.
#[derive(PartialEq, Eq, Structural, Clone, Copy, Debug)]
pub enum ColoringMode {
    White,
    ByHeight,
}

} // verus!
