//! Keyboard shortcuts: the actions the editor binds, the chords bound to
//! them (one primary chord per action plus alternates), rebinding that
//! refuses a chord another action owns, and the per-frame choice of which
//! shortcut fires.
//!
//! A key is identified by its name (`KeyZ`, `Digit1`, `ArrowUp`, `F5`, …),
//! the name the windowing layer gives it.

use vstd::prelude::*;
use crate::text::{chars_of, push_str, str_eq};

verus! {

/// A chord as plain values: key name, then whether Ctrl, Alt and Shift are held.
pub type Chord = (Seq<char>, bool, bool, bool);

/// Actions that can be bound to keys.
#[derive(Debug, Clone, Copy, PartialEq, Eq, Hash, Structural)]
pub enum Action {
    SelectTool,
    MoveTool,
    RotateTool,
    ScaleTool,
    /// Create a new Space inside the active Universe.
    NewSpace,
    /// Create a new Universe folder.
    NewUniverse,
    /// Open an existing Space / scene through the file picker.
    OpenFile,
    /// Manual save — writes ECS to disk + commits to git as a save point.
    SaveScene,
    /// Save the current Space under a new name.
    SaveSceneAs,
    /// Publish the whole Universe to the Eustress platform.
    PublishUniverse,
    /// Publish only the active Space (incremental update).
    PublishSpace,
    Undo,
    Redo,
    Copy,
    Cut,
    Paste,
    Duplicate,
    Delete,
    SelectAll,
    /// Add the direct children of the current selection (single level).
    SelectChildren,
    /// Recursively add every descendant of the current selection.
    SelectDescendants,
    /// Replace selection with the parent(s) of the current selection.
    SelectParent,
    /// Add siblings sharing the same parent.
    SelectSiblings,
    /// Flip selection to everything NOT currently selected.
    InvertSelection,
    Group,
    Ungroup,
    LockSelection,
    UnlockSelection,
    ToggleAnchor,
    ToggleExplorer,
    ToggleProperties,
    ToggleOutput,
    ToggleCommandBar,
    ToggleAssets,
    ToggleCollaboration,
    /// Toggle World/Local space
    ToggleTransformSpace,
    /// Focus camera on selected part (F key)
    FocusSelection,
    /// Toggle Perspective/Orthographic (Numpad 5)
    ViewPerspectiveToggle,
    /// Top view (Numpad 8)
    ViewTop,
    /// Front view (Numpad 2)
    ViewFront,
    /// Left side view (Numpad 4)
    ViewSideLeft,
    /// Right side view (Numpad 6)
    ViewSideRight,
    /// 1 unit snapping (1 key)
    SnapMode1,
    /// 0.2 unit snapping (2 key)
    SnapMode2,
    /// No snapping (3 key)
    SnapModeOff,
    /// Move selection up by one grid unit (- key)
    LiftSelection,
    /// Smart settle: raycast down + flush OR pop on top (+ key)
    SettleSelection,
    /// Rotate 90° on Y axis (Ctrl+R)
    RotateY90,
    /// Tilt 90° on Z axis (Ctrl+T)
    TiltZ90,
    /// Start local server (F9)
    StartServer,
    /// Stop server
    StopServer,
    /// Toggle network panel (Ctrl+Alt+N)
    ToggleNetworkPanel,
    /// F5 — enter play mode with a character
    PlayWithCharacter,
    /// F6 — pause / resume a running play session
    PauseResume,
    /// F7 — enter play mode without a character
    PlaySolo,
    /// F8 — stop play mode, restore the editor snapshot
    StopPlay,
    /// Negate selected part (CSG subtract)
    CSGNegate,
    /// Union selected parts
    CSGUnion,
    /// Intersect selected parts
    CSGIntersect,
    /// Separate union into parts
    CSGSeparate,
    /// Ctrl+Alt+P — swap two parts' positions
    ToolPartSwap,
    /// Ctrl+Alt+E — translate source to target's edge
    ToolEdgeAlign,
    /// Ctrl+Alt+M — reflect selection across a plane
    ToolModelReflect,
    /// Ctrl+Alt+G — fill the gap between two parts
    ToolGapFill,
    /// Ctrl+Alt+A — resize source until its face meets target's
    ToolResizeAlign,
    /// Ctrl+Alt+F — flip texture UVs on selected parts
    ToolMaterialFlip,
    /// Ctrl+Alt+L — N copies along a step vector
    ToolLinearArray,
    /// Ctrl+Alt+R — N copies around a pivot axis
    ToolRadialArray,
    /// Ctrl+Alt+K — Nx × Ny × Nz 3D pattern
    ToolGridArray,
    ToolPathArray,
}

/// The number of actions.
pub const ACTION_COUNT: usize = 70;

/// The display name of an action.
pub open spec fn spec_action_name(a: Action) -> Seq<char> {
    match a {
        Action::SelectTool => "Select Tool"@,
        Action::MoveTool => "Move Tool"@,
        Action::RotateTool => "Rotate Tool"@,
        Action::ScaleTool => "Scale Tool"@,
        Action::NewSpace => "New Space"@,
        Action::NewUniverse => "New Universe"@,
        Action::OpenFile => "Open File"@,
        Action::SaveScene => "Save Scene"@,
        Action::SaveSceneAs => "Save Space As"@,
        Action::PublishUniverse => "Publish Universe"@,
        Action::PublishSpace => "Publish Space"@,
        Action::Undo => "Undo"@,
        Action::Redo => "Redo"@,
        Action::Copy => "Copy"@,
        Action::Cut => "Cut"@,
        Action::Paste => "Paste"@,
        Action::Duplicate => "Duplicate"@,
        Action::Delete => "Delete"@,
        Action::SelectAll => "Select All"@,
        Action::SelectChildren => "Select Children"@,
        Action::SelectDescendants => "Select Descendants"@,
        Action::SelectParent => "Select Parent"@,
        Action::SelectSiblings => "Select Siblings"@,
        Action::InvertSelection => "Invert Selection"@,
        Action::Group => "Group"@,
        Action::Ungroup => "Ungroup"@,
        Action::LockSelection => "Lock Selection"@,
        Action::UnlockSelection => "Unlock Selection"@,
        Action::ToggleAnchor => "Toggle Anchor"@,
        Action::ToggleExplorer => "Toggle Explorer"@,
        Action::ToggleProperties => "Toggle Properties"@,
        Action::ToggleOutput => "Toggle Output"@,
        Action::ToggleCommandBar => "Toggle Command Bar"@,
        Action::ToggleAssets => "Toggle Assets"@,
        Action::ToggleCollaboration => "Toggle Collaboration"@,
        Action::ToggleTransformSpace => "Toggle Transform Space"@,
        Action::FocusSelection => "Focus Selection"@,
        Action::ViewPerspectiveToggle => "Toggle Perspective/Ortho"@,
        Action::ViewTop => "Top View"@,
        Action::ViewFront => "Front View"@,
        Action::ViewSideLeft => "Left Side View"@,
        Action::ViewSideRight => "Right Side View"@,
        Action::SnapMode1 => "Snap Mode: 1m"@,
        Action::SnapMode2 => "Snap Mode: 0.2m"@,
        Action::SnapModeOff => "Snap Mode: Off"@,
        Action::LiftSelection => "Lift (grid unit)"@,
        Action::SettleSelection => "Settle onto Surface"@,
        Action::RotateY90 => "Rotate 90° (Y Axis)"@,
        Action::TiltZ90 => "Tilt 90° (Z Axis)"@,
        Action::StartServer => "Start Server"@,
        Action::StopServer => "Stop Server"@,
        Action::ToggleNetworkPanel => "Toggle Network Panel"@,
        Action::PlayWithCharacter => "Play (with Character)"@,
        Action::PauseResume => "Pause / Resume"@,
        Action::PlaySolo => "Play Solo"@,
        Action::StopPlay => "Stop Play"@,
        Action::CSGNegate => "CSG Negate"@,
        Action::CSGUnion => "CSG Union"@,
        Action::CSGIntersect => "CSG Intersect"@,
        Action::CSGSeparate => "CSG Separate"@,
        Action::ToolPartSwap => "Part Swap"@,
        Action::ToolEdgeAlign => "Edge Align"@,
        Action::ToolModelReflect => "Model Reflect"@,
        Action::ToolGapFill => "Gap Fill"@,
        Action::ToolResizeAlign => "Resize Align"@,
        Action::ToolMaterialFlip => "Material Flip"@,
        Action::ToolLinearArray => "Linear Array"@,
        Action::ToolRadialArray => "Radial Array"@,
        Action::ToolGridArray => "Grid Array"@,
        Action::ToolPathArray => "Path Array"@,
    }
}

/// The position of an action in declaration order.
pub open spec fn action_index(a: Action) -> nat {
    match a {
        Action::SelectTool => 0,
        Action::MoveTool => 1,
        Action::RotateTool => 2,
        Action::ScaleTool => 3,
        Action::NewSpace => 4,
        Action::NewUniverse => 5,
        Action::OpenFile => 6,
        Action::SaveScene => 7,
        Action::SaveSceneAs => 8,
        Action::PublishUniverse => 9,
        Action::PublishSpace => 10,
        Action::Undo => 11,
        Action::Redo => 12,
        Action::Copy => 13,
        Action::Cut => 14,
        Action::Paste => 15,
        Action::Duplicate => 16,
        Action::Delete => 17,
        Action::SelectAll => 18,
        Action::SelectChildren => 19,
        Action::SelectDescendants => 20,
        Action::SelectParent => 21,
        Action::SelectSiblings => 22,
        Action::InvertSelection => 23,
        Action::Group => 24,
        Action::Ungroup => 25,
        Action::LockSelection => 26,
        Action::UnlockSelection => 27,
        Action::ToggleAnchor => 28,
        Action::ToggleExplorer => 29,
        Action::ToggleProperties => 30,
        Action::ToggleOutput => 31,
        Action::ToggleCommandBar => 32,
        Action::ToggleAssets => 33,
        Action::ToggleCollaboration => 34,
        Action::ToggleTransformSpace => 35,
        Action::FocusSelection => 36,
        Action::ViewPerspectiveToggle => 37,
        Action::ViewTop => 38,
        Action::ViewFront => 39,
        Action::ViewSideLeft => 40,
        Action::ViewSideRight => 41,
        Action::SnapMode1 => 42,
        Action::SnapMode2 => 43,
        Action::SnapModeOff => 44,
        Action::LiftSelection => 45,
        Action::SettleSelection => 46,
        Action::RotateY90 => 47,
        Action::TiltZ90 => 48,
        Action::StartServer => 49,
        Action::StopServer => 50,
        Action::ToggleNetworkPanel => 51,
        Action::PlayWithCharacter => 52,
        Action::PauseResume => 53,
        Action::PlaySolo => 54,
        Action::StopPlay => 55,
        Action::CSGNegate => 56,
        Action::CSGUnion => 57,
        Action::CSGIntersect => 58,
        Action::CSGSeparate => 59,
        Action::ToolPartSwap => 60,
        Action::ToolEdgeAlign => 61,
        Action::ToolModelReflect => 62,
        Action::ToolGapFill => 63,
        Action::ToolResizeAlign => 64,
        Action::ToolMaterialFlip => 65,
        Action::ToolLinearArray => 66,
        Action::ToolRadialArray => 67,
        Action::ToolGridArray => 68,
        Action::ToolPathArray => 69,
    }
}

/// The action at a position in declaration order.
pub open spec fn action_at_index(i: nat) -> Action {
    if i == 0 {
        Action::SelectTool
    } else if i == 1 {
        Action::MoveTool
    } else if i == 2 {
        Action::RotateTool
    } else if i == 3 {
        Action::ScaleTool
    } else if i == 4 {
        Action::NewSpace
    } else if i == 5 {
        Action::NewUniverse
    } else if i == 6 {
        Action::OpenFile
    } else if i == 7 {
        Action::SaveScene
    } else if i == 8 {
        Action::SaveSceneAs
    } else if i == 9 {
        Action::PublishUniverse
    } else if i == 10 {
        Action::PublishSpace
    } else if i == 11 {
        Action::Undo
    } else if i == 12 {
        Action::Redo
    } else if i == 13 {
        Action::Copy
    } else if i == 14 {
        Action::Cut
    } else if i == 15 {
        Action::Paste
    } else if i == 16 {
        Action::Duplicate
    } else if i == 17 {
        Action::Delete
    } else if i == 18 {
        Action::SelectAll
    } else if i == 19 {
        Action::SelectChildren
    } else if i == 20 {
        Action::SelectDescendants
    } else if i == 21 {
        Action::SelectParent
    } else if i == 22 {
        Action::SelectSiblings
    } else if i == 23 {
        Action::InvertSelection
    } else if i == 24 {
        Action::Group
    } else if i == 25 {
        Action::Ungroup
    } else if i == 26 {
        Action::LockSelection
    } else if i == 27 {
        Action::UnlockSelection
    } else if i == 28 {
        Action::ToggleAnchor
    } else if i == 29 {
        Action::ToggleExplorer
    } else if i == 30 {
        Action::ToggleProperties
    } else if i == 31 {
        Action::ToggleOutput
    } else if i == 32 {
        Action::ToggleCommandBar
    } else if i == 33 {
        Action::ToggleAssets
    } else if i == 34 {
        Action::ToggleCollaboration
    } else if i == 35 {
        Action::ToggleTransformSpace
    } else if i == 36 {
        Action::FocusSelection
    } else if i == 37 {
        Action::ViewPerspectiveToggle
    } else if i == 38 {
        Action::ViewTop
    } else if i == 39 {
        Action::ViewFront
    } else if i == 40 {
        Action::ViewSideLeft
    } else if i == 41 {
        Action::ViewSideRight
    } else if i == 42 {
        Action::SnapMode1
    } else if i == 43 {
        Action::SnapMode2
    } else if i == 44 {
        Action::SnapModeOff
    } else if i == 45 {
        Action::LiftSelection
    } else if i == 46 {
        Action::SettleSelection
    } else if i == 47 {
        Action::RotateY90
    } else if i == 48 {
        Action::TiltZ90
    } else if i == 49 {
        Action::StartServer
    } else if i == 50 {
        Action::StopServer
    } else if i == 51 {
        Action::ToggleNetworkPanel
    } else if i == 52 {
        Action::PlayWithCharacter
    } else if i == 53 {
        Action::PauseResume
    } else if i == 54 {
        Action::PlaySolo
    } else if i == 55 {
        Action::StopPlay
    } else if i == 56 {
        Action::CSGNegate
    } else if i == 57 {
        Action::CSGUnion
    } else if i == 58 {
        Action::CSGIntersect
    } else if i == 59 {
        Action::CSGSeparate
    } else if i == 60 {
        Action::ToolPartSwap
    } else if i == 61 {
        Action::ToolEdgeAlign
    } else if i == 62 {
        Action::ToolModelReflect
    } else if i == 63 {
        Action::ToolGapFill
    } else if i == 64 {
        Action::ToolResizeAlign
    } else if i == 65 {
        Action::ToolMaterialFlip
    } else if i == 66 {
        Action::ToolLinearArray
    } else if i == 67 {
        Action::ToolRadialArray
    } else if i == 68 {
        Action::ToolGridArray
    } else {
        Action::ToolPathArray
    }
}

/// The default chord of an action: key name, Ctrl, Alt, Shift.
pub open spec fn spec_default_chord(a: Action) -> Option<Chord> {
    match a {
        Action::SelectTool => Some(("KeyZ"@, false, true, false)),
        Action::MoveTool => Some(("KeyX"@, false, true, false)),
        Action::RotateTool => Some(("KeyV"@, false, true, false)),
        Action::ScaleTool => Some(("KeyC"@, false, true, false)),
        Action::NewSpace => Some(("KeyN"@, true, false, false)),
        Action::NewUniverse => Some(("KeyN"@, true, false, true)),
        Action::OpenFile => Some(("KeyO"@, true, false, false)),
        Action::SaveScene => Some(("KeyS"@, true, false, false)),
        Action::SaveSceneAs => Some(("KeyS"@, true, false, true)),
        Action::PublishUniverse => Some(("KeyP"@, true, false, false)),
        Action::PublishSpace => Some(("KeyP"@, true, false, true)),
        Action::Undo => Some(("KeyZ"@, true, false, false)),
        Action::Redo => Some(("KeyY"@, true, false, false)),
        Action::Copy => Some(("KeyC"@, true, false, false)),
        Action::Cut => Some(("KeyX"@, true, false, false)),
        Action::Paste => Some(("KeyV"@, true, false, false)),
        Action::Duplicate => Some(("KeyD"@, true, false, false)),
        Action::Delete => Some(("Delete"@, false, false, false)),
        Action::SelectAll => Some(("KeyA"@, true, false, false)),
        Action::SelectChildren => Some(("KeyV"@, true, false, true)),
        Action::SelectDescendants => Some(("KeyD"@, true, false, true)),
        Action::SelectParent => Some(("KeyU"@, true, false, true)),
        Action::SelectSiblings => Some(("KeyA"@, true, false, true)),
        Action::InvertSelection => Some(("KeyI"@, true, false, false)),
        Action::Group => Some(("KeyG"@, true, false, false)),
        Action::Ungroup => Some(("KeyU"@, true, false, false)),
        Action::LockSelection => Some(("KeyL"@, false, true, false)),
        Action::UnlockSelection => Some(("KeyL"@, false, true, true)),
        Action::ToggleAnchor => Some(("KeyA"@, false, true, false)),
        Action::ToggleExplorer => Some(("Digit1"@, true, false, false)),
        Action::ToggleProperties => Some(("Digit2"@, true, false, false)),
        Action::ToggleOutput => Some(("Digit3"@, true, false, false)),
        Action::ToggleCommandBar => Some(("KeyK"@, true, false, false)),
        Action::ToggleAssets => Some(("KeyF"@, true, false, true)),
        Action::ToggleCollaboration => Some(("KeyL"@, true, false, true)),
        Action::ToggleTransformSpace => Some(("KeyL"@, true, false, false)),
        Action::FocusSelection => Some(("KeyF"@, false, false, false)),
        Action::ViewPerspectiveToggle => Some(("Numpad5"@, false, false, false)),
        Action::ViewTop => Some(("Numpad8"@, false, false, false)),
        Action::ViewFront => Some(("Numpad2"@, false, false, false)),
        Action::ViewSideLeft => Some(("Numpad4"@, false, false, false)),
        Action::ViewSideRight => Some(("Numpad6"@, false, false, false)),
        Action::SnapMode1 => Some(("Digit1"@, false, false, false)),
        Action::SnapMode2 => Some(("Digit2"@, false, false, false)),
        Action::SnapModeOff => Some(("Digit3"@, false, false, false)),
        Action::LiftSelection => Some(("Minus"@, false, false, false)),
        Action::SettleSelection => Some(("Equal"@, false, false, false)),
        Action::RotateY90 => Some(("KeyR"@, true, false, false)),
        Action::TiltZ90 => Some(("KeyT"@, true, false, false)),
        Action::StartServer => Some(("F9"@, false, false, false)),
        Action::StopServer => None,
        Action::ToggleNetworkPanel => Some(("KeyN"@, true, true, false)),
        Action::PlayWithCharacter => Some(("F5"@, false, false, false)),
        Action::PauseResume => Some(("F6"@, false, false, false)),
        Action::PlaySolo => Some(("F7"@, false, false, false)),
        Action::StopPlay => Some(("F8"@, false, false, false)),
        Action::CSGNegate => None,
        Action::CSGUnion => None,
        Action::CSGIntersect => None,
        Action::CSGSeparate => None,
        Action::ToolPartSwap => Some(("KeyP"@, true, true, false)),
        Action::ToolEdgeAlign => Some(("KeyE"@, true, true, false)),
        Action::ToolModelReflect => Some(("KeyM"@, true, true, false)),
        Action::ToolGapFill => Some(("KeyG"@, true, true, false)),
        Action::ToolResizeAlign => Some(("KeyA"@, true, true, false)),
        Action::ToolMaterialFlip => Some(("KeyF"@, true, true, false)),
        Action::ToolLinearArray => Some(("KeyL"@, true, true, false)),
        Action::ToolRadialArray => Some(("KeyR"@, true, true, false)),
        Action::ToolGridArray => Some(("KeyK"@, true, true, false)),
        Action::ToolPathArray => Some(("KeyH"@, true, true, false)),
    }
}

impl Action {
    /// The action's display name.
    pub fn name(&self) -> (r: &'static str)
        ensures
            r@ == spec_action_name(*self),
    {
        match self {
            Action::SelectTool => "Select Tool",
            Action::MoveTool => "Move Tool",
            Action::RotateTool => "Rotate Tool",
            Action::ScaleTool => "Scale Tool",
            Action::NewSpace => "New Space",
            Action::NewUniverse => "New Universe",
            Action::OpenFile => "Open File",
            Action::SaveScene => "Save Scene",
            Action::SaveSceneAs => "Save Space As",
            Action::PublishUniverse => "Publish Universe",
            Action::PublishSpace => "Publish Space",
            Action::Undo => "Undo",
            Action::Redo => "Redo",
            Action::Copy => "Copy",
            Action::Cut => "Cut",
            Action::Paste => "Paste",
            Action::Duplicate => "Duplicate",
            Action::Delete => "Delete",
            Action::SelectAll => "Select All",
            Action::SelectChildren => "Select Children",
            Action::SelectDescendants => "Select Descendants",
            Action::SelectParent => "Select Parent",
            Action::SelectSiblings => "Select Siblings",
            Action::InvertSelection => "Invert Selection",
            Action::Group => "Group",
            Action::Ungroup => "Ungroup",
            Action::LockSelection => "Lock Selection",
            Action::UnlockSelection => "Unlock Selection",
            Action::ToggleAnchor => "Toggle Anchor",
            Action::ToggleExplorer => "Toggle Explorer",
            Action::ToggleProperties => "Toggle Properties",
            Action::ToggleOutput => "Toggle Output",
            Action::ToggleCommandBar => "Toggle Command Bar",
            Action::ToggleAssets => "Toggle Assets",
            Action::ToggleCollaboration => "Toggle Collaboration",
            Action::ToggleTransformSpace => "Toggle Transform Space",
            Action::FocusSelection => "Focus Selection",
            Action::ViewPerspectiveToggle => "Toggle Perspective/Ortho",
            Action::ViewTop => "Top View",
            Action::ViewFront => "Front View",
            Action::ViewSideLeft => "Left Side View",
            Action::ViewSideRight => "Right Side View",
            Action::SnapMode1 => "Snap Mode: 1m",
            Action::SnapMode2 => "Snap Mode: 0.2m",
            Action::SnapModeOff => "Snap Mode: Off",
            Action::LiftSelection => "Lift (grid unit)",
            Action::SettleSelection => "Settle onto Surface",
            Action::RotateY90 => "Rotate 90° (Y Axis)",
            Action::TiltZ90 => "Tilt 90° (Z Axis)",
            Action::StartServer => "Start Server",
            Action::StopServer => "Stop Server",
            Action::ToggleNetworkPanel => "Toggle Network Panel",
            Action::PlayWithCharacter => "Play (with Character)",
            Action::PauseResume => "Pause / Resume",
            Action::PlaySolo => "Play Solo",
            Action::StopPlay => "Stop Play",
            Action::CSGNegate => "CSG Negate",
            Action::CSGUnion => "CSG Union",
            Action::CSGIntersect => "CSG Intersect",
            Action::CSGSeparate => "CSG Separate",
            Action::ToolPartSwap => "Part Swap",
            Action::ToolEdgeAlign => "Edge Align",
            Action::ToolModelReflect => "Model Reflect",
            Action::ToolGapFill => "Gap Fill",
            Action::ToolResizeAlign => "Resize Align",
            Action::ToolMaterialFlip => "Material Flip",
            Action::ToolLinearArray => "Linear Array",
            Action::ToolRadialArray => "Radial Array",
            Action::ToolGridArray => "Grid Array",
            Action::ToolPathArray => "Path Array",
        }
    }

    /// The action's position in declaration order.
    pub fn index(&self) -> (r: usize)
        ensures
            r as nat == action_index(*self),
            r < ACTION_COUNT,
    {
        match self {
            Action::SelectTool => 0,
            Action::MoveTool => 1,
            Action::RotateTool => 2,
            Action::ScaleTool => 3,
            Action::NewSpace => 4,
            Action::NewUniverse => 5,
            Action::OpenFile => 6,
            Action::SaveScene => 7,
            Action::SaveSceneAs => 8,
            Action::PublishUniverse => 9,
            Action::PublishSpace => 10,
            Action::Undo => 11,
            Action::Redo => 12,
            Action::Copy => 13,
            Action::Cut => 14,
            Action::Paste => 15,
            Action::Duplicate => 16,
            Action::Delete => 17,
            Action::SelectAll => 18,
            Action::SelectChildren => 19,
            Action::SelectDescendants => 20,
            Action::SelectParent => 21,
            Action::SelectSiblings => 22,
            Action::InvertSelection => 23,
            Action::Group => 24,
            Action::Ungroup => 25,
            Action::LockSelection => 26,
            Action::UnlockSelection => 27,
            Action::ToggleAnchor => 28,
            Action::ToggleExplorer => 29,
            Action::ToggleProperties => 30,
            Action::ToggleOutput => 31,
            Action::ToggleCommandBar => 32,
            Action::ToggleAssets => 33,
            Action::ToggleCollaboration => 34,
            Action::ToggleTransformSpace => 35,
            Action::FocusSelection => 36,
            Action::ViewPerspectiveToggle => 37,
            Action::ViewTop => 38,
            Action::ViewFront => 39,
            Action::ViewSideLeft => 40,
            Action::ViewSideRight => 41,
            Action::SnapMode1 => 42,
            Action::SnapMode2 => 43,
            Action::SnapModeOff => 44,
            Action::LiftSelection => 45,
            Action::SettleSelection => 46,
            Action::RotateY90 => 47,
            Action::TiltZ90 => 48,
            Action::StartServer => 49,
            Action::StopServer => 50,
            Action::ToggleNetworkPanel => 51,
            Action::PlayWithCharacter => 52,
            Action::PauseResume => 53,
            Action::PlaySolo => 54,
            Action::StopPlay => 55,
            Action::CSGNegate => 56,
            Action::CSGUnion => 57,
            Action::CSGIntersect => 58,
            Action::CSGSeparate => 59,
            Action::ToolPartSwap => 60,
            Action::ToolEdgeAlign => 61,
            Action::ToolModelReflect => 62,
            Action::ToolGapFill => 63,
            Action::ToolResizeAlign => 64,
            Action::ToolMaterialFlip => 65,
            Action::ToolLinearArray => 66,
            Action::ToolRadialArray => 67,
            Action::ToolGridArray => 68,
            Action::ToolPathArray => 69,
        }
    }

    /// The action at position `i` in declaration order.
    pub fn at_index(i: usize) -> (r: Action)
        requires
            i < ACTION_COUNT,
        ensures
            r == action_at_index(i as nat),
            action_index(r) == i as nat,
    {
        if i == 0 {
            Action::SelectTool
        } else if i == 1 {
            Action::MoveTool
        } else if i == 2 {
            Action::RotateTool
        } else if i == 3 {
            Action::ScaleTool
        } else if i == 4 {
            Action::NewSpace
        } else if i == 5 {
            Action::NewUniverse
        } else if i == 6 {
            Action::OpenFile
        } else if i == 7 {
            Action::SaveScene
        } else if i == 8 {
            Action::SaveSceneAs
        } else if i == 9 {
            Action::PublishUniverse
        } else if i == 10 {
            Action::PublishSpace
        } else if i == 11 {
            Action::Undo
        } else if i == 12 {
            Action::Redo
        } else if i == 13 {
            Action::Copy
        } else if i == 14 {
            Action::Cut
        } else if i == 15 {
            Action::Paste
        } else if i == 16 {
            Action::Duplicate
        } else if i == 17 {
            Action::Delete
        } else if i == 18 {
            Action::SelectAll
        } else if i == 19 {
            Action::SelectChildren
        } else if i == 20 {
            Action::SelectDescendants
        } else if i == 21 {
            Action::SelectParent
        } else if i == 22 {
            Action::SelectSiblings
        } else if i == 23 {
            Action::InvertSelection
        } else if i == 24 {
            Action::Group
        } else if i == 25 {
            Action::Ungroup
        } else if i == 26 {
            Action::LockSelection
        } else if i == 27 {
            Action::UnlockSelection
        } else if i == 28 {
            Action::ToggleAnchor
        } else if i == 29 {
            Action::ToggleExplorer
        } else if i == 30 {
            Action::ToggleProperties
        } else if i == 31 {
            Action::ToggleOutput
        } else if i == 32 {
            Action::ToggleCommandBar
        } else if i == 33 {
            Action::ToggleAssets
        } else if i == 34 {
            Action::ToggleCollaboration
        } else if i == 35 {
            Action::ToggleTransformSpace
        } else if i == 36 {
            Action::FocusSelection
        } else if i == 37 {
            Action::ViewPerspectiveToggle
        } else if i == 38 {
            Action::ViewTop
        } else if i == 39 {
            Action::ViewFront
        } else if i == 40 {
            Action::ViewSideLeft
        } else if i == 41 {
            Action::ViewSideRight
        } else if i == 42 {
            Action::SnapMode1
        } else if i == 43 {
            Action::SnapMode2
        } else if i == 44 {
            Action::SnapModeOff
        } else if i == 45 {
            Action::LiftSelection
        } else if i == 46 {
            Action::SettleSelection
        } else if i == 47 {
            Action::RotateY90
        } else if i == 48 {
            Action::TiltZ90
        } else if i == 49 {
            Action::StartServer
        } else if i == 50 {
            Action::StopServer
        } else if i == 51 {
            Action::ToggleNetworkPanel
        } else if i == 52 {
            Action::PlayWithCharacter
        } else if i == 53 {
            Action::PauseResume
        } else if i == 54 {
            Action::PlaySolo
        } else if i == 55 {
            Action::StopPlay
        } else if i == 56 {
            Action::CSGNegate
        } else if i == 57 {
            Action::CSGUnion
        } else if i == 58 {
            Action::CSGIntersect
        } else if i == 59 {
            Action::CSGSeparate
        } else if i == 60 {
            Action::ToolPartSwap
        } else if i == 61 {
            Action::ToolEdgeAlign
        } else if i == 62 {
            Action::ToolModelReflect
        } else if i == 63 {
            Action::ToolGapFill
        } else if i == 64 {
            Action::ToolResizeAlign
        } else if i == 65 {
            Action::ToolMaterialFlip
        } else if i == 66 {
            Action::ToolLinearArray
        } else if i == 67 {
            Action::ToolRadialArray
        } else if i == 68 {
            Action::ToolGridArray
        } else {
            Action::ToolPathArray
        }
    }
}

/// The default binding of an action, if it has one.
fn default_binding(a: Action) -> (r: Option<KeyBinding>)
    ensures
        chord_of(r) == spec_default_chord(a),
{
    match a {
        Action::SelectTool => Some(KeyBinding::named("KeyZ").with_alt()),
        Action::MoveTool => Some(KeyBinding::named("KeyX").with_alt()),
        Action::RotateTool => Some(KeyBinding::named("KeyV").with_alt()),
        Action::ScaleTool => Some(KeyBinding::named("KeyC").with_alt()),
        Action::NewSpace => Some(KeyBinding::named("KeyN").with_ctrl()),
        Action::NewUniverse => Some(KeyBinding::named("KeyN").with_ctrl().with_shift()),
        Action::OpenFile => Some(KeyBinding::named("KeyO").with_ctrl()),
        Action::SaveScene => Some(KeyBinding::named("KeyS").with_ctrl()),
        Action::SaveSceneAs => Some(KeyBinding::named("KeyS").with_ctrl().with_shift()),
        Action::PublishUniverse => Some(KeyBinding::named("KeyP").with_ctrl()),
        Action::PublishSpace => Some(KeyBinding::named("KeyP").with_ctrl().with_shift()),
        Action::Undo => Some(KeyBinding::named("KeyZ").with_ctrl()),
        Action::Redo => Some(KeyBinding::named("KeyY").with_ctrl()),
        Action::Copy => Some(KeyBinding::named("KeyC").with_ctrl()),
        Action::Cut => Some(KeyBinding::named("KeyX").with_ctrl()),
        Action::Paste => Some(KeyBinding::named("KeyV").with_ctrl()),
        Action::Duplicate => Some(KeyBinding::named("KeyD").with_ctrl()),
        Action::Delete => Some(KeyBinding::named("Delete")),
        Action::SelectAll => Some(KeyBinding::named("KeyA").with_ctrl()),
        Action::SelectChildren => Some(KeyBinding::named("KeyV").with_ctrl().with_shift()),
        Action::SelectDescendants => Some(KeyBinding::named("KeyD").with_ctrl().with_shift()),
        Action::SelectParent => Some(KeyBinding::named("KeyU").with_ctrl().with_shift()),
        Action::SelectSiblings => Some(KeyBinding::named("KeyA").with_ctrl().with_shift()),
        Action::InvertSelection => Some(KeyBinding::named("KeyI").with_ctrl()),
        Action::Group => Some(KeyBinding::named("KeyG").with_ctrl()),
        Action::Ungroup => Some(KeyBinding::named("KeyU").with_ctrl()),
        Action::LockSelection => Some(KeyBinding::named("KeyL").with_alt()),
        Action::UnlockSelection => Some(KeyBinding::named("KeyL").with_alt().with_shift()),
        Action::ToggleAnchor => Some(KeyBinding::named("KeyA").with_alt()),
        Action::ToggleExplorer => Some(KeyBinding::named("Digit1").with_ctrl()),
        Action::ToggleProperties => Some(KeyBinding::named("Digit2").with_ctrl()),
        Action::ToggleOutput => Some(KeyBinding::named("Digit3").with_ctrl()),
        Action::ToggleCommandBar => Some(KeyBinding::named("KeyK").with_ctrl()),
        Action::ToggleAssets => Some(KeyBinding::named("KeyF").with_ctrl().with_shift()),
        Action::ToggleCollaboration => Some(KeyBinding::named("KeyL").with_ctrl().with_shift()),
        Action::ToggleTransformSpace => Some(KeyBinding::named("KeyL").with_ctrl()),
        Action::FocusSelection => Some(KeyBinding::named("KeyF")),
        Action::ViewPerspectiveToggle => Some(KeyBinding::named("Numpad5")),
        Action::ViewTop => Some(KeyBinding::named("Numpad8")),
        Action::ViewFront => Some(KeyBinding::named("Numpad2")),
        Action::ViewSideLeft => Some(KeyBinding::named("Numpad4")),
        Action::ViewSideRight => Some(KeyBinding::named("Numpad6")),
        Action::SnapMode1 => Some(KeyBinding::named("Digit1")),
        Action::SnapMode2 => Some(KeyBinding::named("Digit2")),
        Action::SnapModeOff => Some(KeyBinding::named("Digit3")),
        Action::LiftSelection => Some(KeyBinding::named("Minus")),
        Action::SettleSelection => Some(KeyBinding::named("Equal")),
        Action::RotateY90 => Some(KeyBinding::named("KeyR").with_ctrl()),
        Action::TiltZ90 => Some(KeyBinding::named("KeyT").with_ctrl()),
        Action::StartServer => Some(KeyBinding::named("F9")),
        Action::StopServer => None,
        Action::ToggleNetworkPanel => Some(KeyBinding::named("KeyN").with_ctrl().with_alt()),
        Action::PlayWithCharacter => Some(KeyBinding::named("F5")),
        Action::PauseResume => Some(KeyBinding::named("F6")),
        Action::PlaySolo => Some(KeyBinding::named("F7")),
        Action::StopPlay => Some(KeyBinding::named("F8")),
        Action::CSGNegate => None,
        Action::CSGUnion => None,
        Action::CSGIntersect => None,
        Action::CSGSeparate => None,
        Action::ToolPartSwap => Some(KeyBinding::named("KeyP").with_ctrl().with_alt()),
        Action::ToolEdgeAlign => Some(KeyBinding::named("KeyE").with_ctrl().with_alt()),
        Action::ToolModelReflect => Some(KeyBinding::named("KeyM").with_ctrl().with_alt()),
        Action::ToolGapFill => Some(KeyBinding::named("KeyG").with_ctrl().with_alt()),
        Action::ToolResizeAlign => Some(KeyBinding::named("KeyA").with_ctrl().with_alt()),
        Action::ToolMaterialFlip => Some(KeyBinding::named("KeyF").with_ctrl().with_alt()),
        Action::ToolLinearArray => Some(KeyBinding::named("KeyL").with_ctrl().with_alt()),
        Action::ToolRadialArray => Some(KeyBinding::named("KeyR").with_ctrl().with_alt()),
        Action::ToolGridArray => Some(KeyBinding::named("KeyK").with_ctrl().with_alt()),
        Action::ToolPathArray => Some(KeyBinding::named("KeyH").with_ctrl().with_alt()),
    }
}

/// Every action the shortcut dispatcher tests each frame, in the order it
/// tests them (the first match wins).
pub open spec fn spec_dispatched_actions() -> Seq<Action> {
    seq![
        Action::NewSpace,
        Action::NewUniverse,
        Action::OpenFile,
        Action::SaveScene,
        Action::SaveSceneAs,
        Action::PublishUniverse,
        Action::PublishSpace,
        Action::Undo,
        Action::Redo,
        Action::Copy,
        Action::Cut,
        Action::Paste,
        Action::Duplicate,
        Action::Delete,
        Action::SelectAll,
        Action::SelectChildren,
        Action::SelectDescendants,
        Action::SelectParent,
        Action::SelectSiblings,
        Action::InvertSelection,
        Action::Group,
        Action::Ungroup,
        Action::LockSelection,
        Action::UnlockSelection,
        Action::ToggleAnchor,
        Action::ToggleExplorer,
        Action::ToggleProperties,
        Action::ToggleOutput,
        Action::ToggleCommandBar,
        Action::ToggleAssets,
        Action::ToggleCollaboration,
        Action::ToggleTransformSpace,
        Action::FocusSelection,
        Action::ViewPerspectiveToggle,
        Action::ViewTop,
        Action::ViewFront,
        Action::ViewSideLeft,
        Action::ViewSideRight,
        Action::SnapMode1,
        Action::SnapMode2,
        Action::SnapModeOff,
        Action::LiftSelection,
        Action::SettleSelection,
        Action::RotateY90,
        Action::TiltZ90,
        Action::StartServer,
        Action::ToggleNetworkPanel,
        Action::PlayWithCharacter,
        Action::PauseResume,
        Action::PlaySolo,
        Action::StopPlay,
        Action::CSGNegate,
        Action::CSGUnion,
        Action::CSGIntersect,
        Action::CSGSeparate,
        Action::ToolPartSwap,
        Action::ToolEdgeAlign,
        Action::ToolModelReflect,
        Action::ToolGapFill,
        Action::ToolResizeAlign,
        Action::ToolMaterialFlip,
        Action::ToolLinearArray,
        Action::ToolRadialArray,
        Action::ToolGridArray,
        Action::ToolPathArray,
    ]
}

/// The dispatched actions, in dispatch order.
pub fn dispatched_actions() -> (r: Vec<Action>)
    ensures
        r@ == spec_dispatched_actions(),
{
    let v = vec![
        Action::NewSpace,
        Action::NewUniverse,
        Action::OpenFile,
        Action::SaveScene,
        Action::SaveSceneAs,
        Action::PublishUniverse,
        Action::PublishSpace,
        Action::Undo,
        Action::Redo,
        Action::Copy,
        Action::Cut,
        Action::Paste,
        Action::Duplicate,
        Action::Delete,
        Action::SelectAll,
        Action::SelectChildren,
        Action::SelectDescendants,
        Action::SelectParent,
        Action::SelectSiblings,
        Action::InvertSelection,
        Action::Group,
        Action::Ungroup,
        Action::LockSelection,
        Action::UnlockSelection,
        Action::ToggleAnchor,
        Action::ToggleExplorer,
        Action::ToggleProperties,
        Action::ToggleOutput,
        Action::ToggleCommandBar,
        Action::ToggleAssets,
        Action::ToggleCollaboration,
        Action::ToggleTransformSpace,
        Action::FocusSelection,
        Action::ViewPerspectiveToggle,
        Action::ViewTop,
        Action::ViewFront,
        Action::ViewSideLeft,
        Action::ViewSideRight,
        Action::SnapMode1,
        Action::SnapMode2,
        Action::SnapModeOff,
        Action::LiftSelection,
        Action::SettleSelection,
        Action::RotateY90,
        Action::TiltZ90,
        Action::StartServer,
        Action::ToggleNetworkPanel,
        Action::PlayWithCharacter,
        Action::PauseResume,
        Action::PlaySolo,
        Action::StopPlay,
        Action::CSGNegate,
        Action::CSGUnion,
        Action::CSGIntersect,
        Action::CSGSeparate,
        Action::ToolPartSwap,
        Action::ToolEdgeAlign,
        Action::ToolModelReflect,
        Action::ToolGapFill,
        Action::ToolResizeAlign,
        Action::ToolMaterialFlip,
        Action::ToolLinearArray,
        Action::ToolRadialArray,
        Action::ToolGridArray,
        Action::ToolPathArray,
    ];
    v
}

/// Key combination with modifiers.
#[derive(Debug, PartialEq, Eq, Hash)]
pub struct KeyBinding {
    /// The key's name, e.g. `KeyZ`.
    pub key: String,
    pub ctrl: bool,
    pub alt: bool,
    pub shift: bool,
}

impl Clone for KeyBinding {
    fn clone(&self) -> (r: Self)
        ensures
            r == *self,
    {
        KeyBinding { key: self.key.clone(), ctrl: self.ctrl, alt: self.alt, shift: self.shift }
    }
}

/// The chord of a binding.
pub open spec fn chord(b: KeyBinding) -> Chord {
    (b.key@, b.ctrl, b.alt, b.shift)
}

/// The chord of an optional binding.
pub open spec fn chord_of(b: Option<KeyBinding>) -> Option<Chord> {
    match b {
        Some(k) => Some(chord(k)),
        None => None,
    }
}

/// The chords of a list of bindings.
pub open spec fn chords(v: Seq<KeyBinding>) -> Seq<Chord> {
    v.map_values(|b: KeyBinding| chord(b))
}

/// The user-facing name of a key: `KeyA`..`KeyZ` lose their `Key` prefix,
/// `Digit0`..`Digit9` their `Digit` prefix, arrows become arrow glyphs,
/// `Escape` and `Delete` shorten to `Esc` and `Del`; anything else is shown
/// by its name.
pub open spec fn spec_key_display(k: Seq<char>) -> Seq<char> {
    if k.len() == 4 && k[0] == 'K' && k[1] == 'e' && k[2] == 'y' && (k[3] as u32) < 128 {
        seq![k[3]]
    } else if k.len() >= 5 && k[0] == 'D' && k[1] == 'i' && k[2] == 'g' && k[3] == 'i' && k[4] == 't' {
        k.skip(5)
    } else if k == "ArrowUp"@ {
        "↑"@
    } else if k == "ArrowDown"@ {
        "↓"@
    } else if k == "ArrowLeft"@ {
        "←"@
    } else if k == "ArrowRight"@ {
        "→"@
    } else if k == "Escape"@ {
        "Esc"@
    } else if k == "Delete"@ {
        "Del"@
    } else {
        k
    }
}

/// The modifier prefix of a chord: `Ctrl+`, `Alt+`, `Shift+` in that order.
pub open spec fn modifier_prefix(ctrl: bool, alt: bool, shift: bool) -> Seq<char> {
    (if ctrl { "Ctrl+"@ } else { Seq::<char>::empty() })
        + (if alt { "Alt+"@ } else { Seq::<char>::empty() })
        + (if shift { "Shift+"@ } else { Seq::<char>::empty() })
}

/// The chord as shown to users, e.g. `Ctrl+Shift+Z`.
pub open spec fn spec_display(b: KeyBinding) -> Seq<char> {
    modifier_prefix(b.ctrl, b.alt, b.shift) + spec_key_display(b.key@)
}

/// The chord with the raw key name, e.g. `Ctrl+KeyZ`.
pub open spec fn spec_string_rep(b: KeyBinding) -> Seq<char> {
    modifier_prefix(b.ctrl, b.alt, b.shift) + b.key@
}

/// Which keys are down this frame: the three modifiers (either side) and
/// the names of the keys that went down this frame.
pub struct KeyboardSnapshot {
    pub ctrl: bool,
    pub alt: bool,
    pub shift: bool,
    pub just_pressed: Vec<String>,
}

/// `b` is the chord pressed this frame: modifiers exactly as held, and its
/// key just went down.
pub open spec fn spec_matches(b: KeyBinding, keys: KeyboardSnapshot) -> bool {
    &&& b.ctrl == keys.ctrl
    &&& b.alt == keys.alt
    &&& b.shift == keys.shift
    &&& exists|i: int| 0 <= i < keys.just_pressed@.len() && (#[trigger] keys.just_pressed@[i])@ == b.key@
}

impl KeyBinding {
    /// A binding with no modifiers on the named key.
    pub fn new(key: String) -> (r: Self)
        ensures
            r.key == key,
            !r.ctrl && !r.alt && !r.shift,
    {
        KeyBinding { key, ctrl: false, alt: false, shift: false }
    }

    /// A binding with no modifiers on the key with name `key`.
    pub fn named(key: &str) -> (r: Self)
        ensures
            r.key@ == key@,
            !r.ctrl && !r.alt && !r.shift,
    {
        let mut k = String::new();
        push_str(&mut k, key);
        KeyBinding { key: k, ctrl: false, alt: false, shift: false }
    }

    /// The same binding with Ctrl held.
    pub fn with_ctrl(self) -> (r: Self)
        ensures
            r == (KeyBinding { ctrl: true, ..self }),
    {
        KeyBinding { ctrl: true, ..self }
    }

    /// The same binding with Alt held.
    pub fn with_alt(self) -> (r: Self)
        ensures
            r == (KeyBinding { alt: true, ..self }),
    {
        KeyBinding { alt: true, ..self }
    }

    /// The same binding with Shift held.
    pub fn with_shift(self) -> (r: Self)
        ensures
            r == (KeyBinding { shift: true, ..self }),
    {
        KeyBinding { shift: true, ..self }
    }

    /// Whether this chord is the one pressed this frame.
    pub fn matches(&self, keys: &KeyboardSnapshot) -> (r: bool)
        ensures
            r == spec_matches(*self, *keys),
    {
        if self.ctrl != keys.ctrl || self.alt != keys.alt || self.shift != keys.shift {
            return false;
        }
        let mut i: usize = 0;
        while i < keys.just_pressed.len()
            invariant
                i <= keys.just_pressed@.len(),
                self.ctrl == keys.ctrl && self.alt == keys.alt && self.shift == keys.shift,
                forall|j: int| 0 <= j < i ==> (#[trigger] keys.just_pressed@[j])@ != self.key@,
            decreases keys.just_pressed.len() - i,
        {
            if keys.just_pressed[i] == self.key {
                return true;
            }
            i = i + 1;
        }
        false
    }

    /// The chord with the raw key name, e.g. `Ctrl+KeyZ`.
    pub fn to_string_rep(&self) -> (r: String)
        ensures
            r@ == spec_string_rep(*self),
    {
        let mut s = modifier_string(self.ctrl, self.alt, self.shift);
        push_str(&mut s, self.key.as_str());
        s
    }

    /// The chord as users see it, e.g. `Ctrl+Z`.
    pub fn display(&self) -> (r: String)
        ensures
            r@ == spec_display(*self),
    {
        let mut s = modifier_string(self.ctrl, self.alt, self.shift);
        let k = key_display(self.key.as_str());
        push_str(&mut s, k.as_str());
        s
    }
}

fn modifier_string(ctrl: bool, alt: bool, shift: bool) -> (r: String)
    ensures
        r@ == modifier_prefix(ctrl, alt, shift),
{
    let mut s = String::new();
    if ctrl {
        push_str(&mut s, "Ctrl+");
    }
    if alt {
        push_str(&mut s, "Alt+");
    }
    if shift {
        push_str(&mut s, "Shift+");
    }
    s
}

/// The user-facing name of a key.
pub fn key_display(key: &str) -> (r: String)
    ensures
        r@ == spec_key_display(key@),
{
    let v = chars_of(key);
    let mut s = String::new();
    if v.len() == 4 && v[0] == 'K' && v[1] == 'e' && v[2] == 'y' && (v[3] as u32) < 128 {
        crate::text::push_char(&mut s, v[3]);
        return s;
    }
    if v.len() >= 5 && v[0] == 'D' && v[1] == 'i' && v[2] == 'g' && v[3] == 'i' && v[4] == 't' {
        let mut i: usize = 5;
        while i < v.len()
            invariant
                5 <= i <= v@.len(),
                v@ == key@,
                s@ == key@.subrange(5, i as int),
            decreases v.len() - i,
        {
            crate::text::push_char(&mut s, v[i]);
            i = i + 1;
        }
        return s;
    }
    if str_eq(key, "ArrowUp") {
        push_str(&mut s, "↑");
    } else if str_eq(key, "ArrowDown") {
        push_str(&mut s, "↓");
    } else if str_eq(key, "ArrowLeft") {
        push_str(&mut s, "←");
    } else if str_eq(key, "ArrowRight") {
        push_str(&mut s, "→");
    } else if str_eq(key, "Escape") {
        push_str(&mut s, "Esc");
    } else if str_eq(key, "Delete") {
        push_str(&mut s, "Del");
    } else {
        push_str(&mut s, key);
    }
    s
}

/// Whether the key named `k` went down this frame.
pub open spec fn key_down(keys: KeyboardSnapshot, k: Seq<char>) -> bool {
    exists|i: int| 0 <= i < keys.just_pressed@.len() && (#[trigger] keys.just_pressed@[i])@ == k
}

impl KeyboardSnapshot {
    /// Whether the key named `key` went down this frame.
    pub fn is_just_pressed(&self, key: &str) -> (r: bool)
        ensures
            r == key_down(*self, key@),
    {
        let mut i: usize = 0;
        while i < self.just_pressed.len()
            invariant
                i <= self.just_pressed@.len(),
                forall|j: int| 0 <= j < i ==> (#[trigger] self.just_pressed@[j])@ != key@,
            decreases self.just_pressed.len() - i,
        {
            if str_eq(self.just_pressed[i].as_str(), key) {
                return true;
            }
            i = i + 1;
        }
        false
    }
}

/// The alternates an action has by default: Redo also answers to
/// Ctrl+Shift+Z; no other action has an entry.
pub open spec fn spec_default_alternates(a: Action) -> Option<Seq<Chord>> {
    if a == Action::Redo {
        Some(seq![("KeyZ"@, true, false, true)])
    } else {
        None
    }
}

/// Each action sits at its own position, below the number of actions.
pub proof fn lemma_action_index(a: Action)
    ensures
        action_index(a) < ACTION_COUNT,
        action_at_index(action_index(a)) == a,
{
}

/// Two actions at one position are one action.
pub proof fn lemma_action_index_injective(a: Action, b: Action)
    ensures
        action_index(a) == action_index(b) ==> a == b,
{
    lemma_action_index(a);
    lemma_action_index(b);
}

/// Whether two bindings are the same chord.
pub fn same_chord(a: &KeyBinding, b: &KeyBinding) -> (r: bool)
    ensures
        r == (chord(*a) == chord(*b)),
{
    a.ctrl == b.ctrl && a.alt == b.alt && a.shift == b.shift && str_eq(a.key.as_str(), b.key.as_str())
}

/// Whether a list of bindings holds the chord of `b`.
fn holds_chord(v: &Vec<KeyBinding>, b: &KeyBinding) -> (r: bool)
    ensures
        r == chords(v@).contains(chord(*b)),
{
    let mut i: usize = 0;
    while i < v.len()
        invariant
            i <= v@.len(),
            forall|j: int| 0 <= j < i ==> chord(#[trigger] v@[j]) != chord(*b),
        decreases v.len() - i,
    {
        if same_chord(&v[i], b) {
            assert(chords(v@)[i as int] == chord(*b));
            return true;
        }
        i = i + 1;
    }
    assert forall|j: int| 0 <= j < chords(v@).len() implies chords(v@)[j] != chord(*b) by {
        assert(chords(v@)[j] == chord(v@[j]));
    }
    false
}

/// Whether one binding of a list matches the keys pressed this frame.
fn any_matches(v: &Vec<KeyBinding>, keys: &KeyboardSnapshot) -> (r: bool)
    ensures
        r == (exists|i: int| 0 <= i < v@.len() && spec_matches(#[trigger] v@[i], *keys)),
{
    let mut i: usize = 0;
    while i < v.len()
        invariant
            i <= v@.len(),
            forall|j: int| 0 <= j < i ==> !spec_matches(#[trigger] v@[j], *keys),
        decreases v.len() - i,
    {
        if v[i].matches(keys) {
            return true;
        }
        i = i + 1;
    }
    false
}

/// A clone of an optional binding.
fn clone_binding(b: &Option<KeyBinding>) -> (r: Option<KeyBinding>)
    ensures
        r == *b,
{
    match b {
        Some(k) => Some(k.clone()),
        None => None,
    }
}

/// A clone of a list of bindings.
fn clone_bindings(v: &Vec<KeyBinding>) -> (r: Vec<KeyBinding>)
    ensures
        r@ == v@,
{
    let mut out: Vec<KeyBinding> = Vec::new();
    let mut i: usize = 0;
    while i < v.len()
        invariant
            i <= v@.len(),
            out@ == v@.subrange(0, i as int),
        decreases v.len() - i,
    {
        out.push(v[i].clone());
        i = i + 1;
    }
    out
}

/// The contents of an entry of alternates.
pub open spec fn entry_view(e: Option<Vec<KeyBinding>>) -> Option<Seq<KeyBinding>> {
    match e {
        Some(v) => Some(v@),
        None => None,
    }
}

/// The key map: every action's primary binding, if it has one, and its
/// entry of alternate bindings, if it has one. An entry that is present
/// but empty differs from one that is absent: merging in the defaults
/// fills only absent entries.
pub struct KeyBindings {
    bindings: Vec<Option<KeyBinding>>,
    alternates: Vec<Option<Vec<KeyBinding>>>,
}

impl KeyBindings {
    /// Every action has its slot.
    pub closed spec fn wf(self) -> bool {
        &&& self.bindings@.len() == ACTION_COUNT
        &&& self.alternates@.len() == ACTION_COUNT
    }

    /// The action's primary binding.
    pub closed spec fn primary(self, a: Action) -> Option<KeyBinding> {
        self.bindings@[action_index(a) as int]
    }

    /// The action's entry of alternates, `None` where it has none.
    pub closed spec fn alternate_list(self, a: Action) -> Option<Seq<KeyBinding>> {
        entry_view(self.alternates@[action_index(a) as int])
    }

    /// The chord of the action's primary binding.
    pub open spec fn primary_chord(self, a: Action) -> Option<Chord> {
        chord_of(self.primary(a))
    }

    /// The chords of the action's entry of alternates.
    pub open spec fn alternate_entry(self, a: Action) -> Option<Seq<Chord>> {
        match self.alternate_list(a) {
            Some(s) => Some(chords(s)),
            None => None,
        }
    }

    /// The action's alternate chords; none where it has no entry.
    pub open spec fn alternate_chords(self, a: Action) -> Seq<Chord> {
        match self.alternate_entry(a) {
            Some(s) => s,
            None => Seq::empty(),
        }
    }

    /// Whether the action claims the chord, as primary or as alternate.
    pub open spec fn claims(self, a: Action, c: Chord) -> bool {
        self.primary_chord(a) == Some(c) || self.alternate_chords(a).contains(c)
    }

    /// Whether the action fires on this frame's keys: its primary binding or
    /// one of its alternates matches.
    pub open spec fn fires(self, a: Action, keys: KeyboardSnapshot) -> bool {
        ||| (self.primary(a) matches Some(b) && spec_matches(b, keys))
        ||| (self.alternate_list(a) matches Some(s) && exists|i: int|
            0 <= i < s.len() && spec_matches(#[trigger] s[i], keys))
    }

    /// No chord is claimed by two actions.
    pub open spec fn free_of_clashes(self) -> bool {
        forall|a: Action, b: Action, c: Chord|
            a != b && #[trigger] self.claims(a, c) ==> !#[trigger] self.claims(b, c)
    }
}

impl Default for KeyBindings {
    /// The shipped key map.
    fn default() -> (r: Self)
        ensures
            r.wf(),
            forall|a: Action| #[trigger] r.primary_chord(a) == spec_default_chord(a),
            forall|a: Action| #[trigger] r.alternate_entry(a) == spec_default_alternates(a),
    {
        let mut bindings: Vec<Option<KeyBinding>> = Vec::new();
        let mut alternates: Vec<Option<Vec<KeyBinding>>> = Vec::new();
        let mut i: usize = 0;
        while i < ACTION_COUNT
            invariant
                i <= ACTION_COUNT,
                bindings@.len() == i,
                alternates@.len() == i,
                forall|j: int|
                    0 <= j < i ==> chord_of(#[trigger] bindings@[j]) == spec_default_chord(
                        action_at_index(j as nat),
                    ),
                forall|j: int| 0 <= j < i ==> (#[trigger] alternates@[j]) is None,
            decreases ACTION_COUNT - i,
        {
            let a = Action::at_index(i);
            bindings.push(default_binding(a));
            alternates.push(None);
            i = i + 1;
        }
        let redo_alternate = KeyBinding::named("KeyZ").with_ctrl().with_shift();
        let redo = Action::Redo.index();
        alternates.set(redo, Some(vec![redo_alternate]));
        let r = KeyBindings { bindings, alternates };
        assert forall|a: Action| #[trigger] r.primary_chord(a) == spec_default_chord(a) by {
            lemma_action_index(a);
        }
        assert forall|a: Action| #[trigger] r.alternate_entry(a) == spec_default_alternates(a) by {
            lemma_action_index(a);
            lemma_action_index_injective(a, Action::Redo);
            if a == Action::Redo {
                assert(chords(r.alternate_list(a)->0) =~= seq![("KeyZ"@, true, false, true)]);
            }
        }
        r
    }
}

impl KeyBindings {
    /// The action's primary binding: the one the ribbon shows and the remap
    /// dialog edits.
    pub fn get(&self, action: Action) -> (r: Option<&KeyBinding>)
        requires
            self.wf(),
        ensures
            match r {
                Some(b) => self.primary(action) == Some(*b),
                None => self.primary(action) is None,
            },
    {
        let i = action.index();
        match &self.bindings[i] {
            Some(b) => Some(b),
            None => None,
        }
    }

    /// The extra chords that also fire the action (Ctrl+Shift+Z for Redo);
    /// empty for almost every action.
    pub fn alternates(&self, action: Action) -> (r: &[KeyBinding])
        requires
            self.wf(),
        ensures
            r@ == match self.alternate_list(action) {
                Some(s) => s,
                None => Seq::empty(),
            },
    {
        let i = action.index();
        match &self.alternates[i] {
            Some(v) => v.as_slice(),
            None => &[],
        }
    }

    /// The action's entry of alternates itself, absent or present.
    pub fn alternate_entry_of(&self, action: Action) -> (r: Option<&Vec<KeyBinding>>)
        requires
            self.wf(),
        ensures
            match r {
                Some(v) => self.alternate_list(action) == Some(v@),
                None => self.alternate_list(action) is None,
            },
    {
        let i = action.index();
        match &self.alternates[i] {
            Some(v) => Some(v),
            None => None,
        }
    }

    /// The primary chord written out with raw key names, or `Not bound`.
    pub fn get_string(&self, action: Action) -> (r: String)
        requires
            self.wf(),
        ensures
            r@ == match self.primary(action) {
                Some(b) => spec_string_rep(b),
                None => "Not bound"@,
            },
    {
        match self.get(action) {
            Some(b) => b.to_string_rep(),
            None => {
                let mut s = String::new();
                push_str(&mut s, "Not bound");
                s
            },
        }
    }

    /// Point the action's primary binding at `binding`.
    pub fn set(&mut self, action: Action, binding: KeyBinding)
        requires
            old(self).wf(),
        ensures
            final(self).wf(),
            final(self).primary(action) == Some(binding),
            forall|a: Action| a != action ==> #[trigger] final(self).primary(a) == old(self).primary(a),
            forall|a: Action| #[trigger] final(self).alternate_list(a) == old(self).alternate_list(a),
    {
        let i = action.index();
        self.bindings.set(i, Some(binding));
        proof {
            assert forall|a: Action| a != action implies #[trigger] self.primary(a) == old(self).primary(a) by {
                lemma_action_index_injective(a, action);
            }
        }
    }

    /// An action other than `except` that claims the binding's chord, as
    /// primary or as alternate. An action that claims it as primary is
    /// reported before one that claims it only as alternate.
    fn claimant(&self, binding: &KeyBinding, except: Action) -> (r: Option<Action>)
        requires
            self.wf(),
        ensures
            match r {
                Some(a) => a != except && self.claims(a, chord(*binding)),
                None => forall|a: Action| a != except ==> !#[trigger] self.claims(a, chord(*binding)),
            },
            (exists|a: Action| a != except && #[trigger] self.primary_chord(a) == Some(chord(*binding)))
                ==> (r matches Some(a) && self.primary_chord(a) == Some(chord(*binding))),
    {
        let ghost c = chord(*binding);
        let skip = except.index();
        let mut i: usize = 0;
        while i < ACTION_COUNT
            invariant
                i <= ACTION_COUNT,
                skip == action_index(except),
                self.bindings@.len() == ACTION_COUNT,
                c == chord(*binding),
                forall|j: int|
                    0 <= j < i && j != skip ==> chord_of(#[trigger] self.bindings@[j]) != Some(c),
            decreases ACTION_COUNT - i,
        {
            if i != skip {
                if let Some(b) = &self.bindings[i] {
                    if same_chord(b, binding) {
                        let a = Action::at_index(i);
                        return Some(a);
                    }
                }
            }
            i = i + 1;
        }
        proof {
            assert forall|a: Action| a != except implies #[trigger] self.primary_chord(a) != Some(c) by {
                lemma_action_index(a);
                lemma_action_index_injective(a, except);
            }
        }
        let mut i: usize = 0;
        while i < ACTION_COUNT
            invariant
                i <= ACTION_COUNT,
                skip == action_index(except),
                self.alternates@.len() == ACTION_COUNT,
                c == chord(*binding),
                forall|a: Action| a != except ==> #[trigger] self.primary_chord(a) != Some(c),
                forall|j: int|
                    0 <= j < i && j != skip ==> match #[trigger] self.alternates@[j] {
                        Some(v) => !chords(v@).contains(c),
                        None => true,
                    },
            decreases ACTION_COUNT - i,
        {
            if i != skip {
                if let Some(v) = &self.alternates[i] {
                    if holds_chord(v, binding) {
                        let a = Action::at_index(i);
                        return Some(a);
                    }
                }
            }
            i = i + 1;
        }
        proof {
            assert forall|a: Action| a != except implies !#[trigger] self.claims(a, c) by {
                lemma_action_index(a);
                lemma_action_index_injective(a, except);
            }
        }
        None
    }

    /// Point the action's primary binding at `binding`, unless another
    /// action already claims that chord: then nothing changes and the error
    /// names the chord and its owner, as in
    /// `Ctrl+G is already bound to "Group"`. Rebinding an action to a chord
    /// it already owns succeeds.
    pub fn rebind(&mut self, action: Action, binding: KeyBinding) -> (r: Result<(), String>)
        requires
            old(self).wf(),
        ensures
            r is Err <==> exists|a: Action| a != action && #[trigger] old(self).claims(a, chord(binding)),
            final(self).wf(),
            r is Err ==> *final(self) == *old(self),
            r matches Err(msg) ==> exists|owner: Action|
                owner != action && #[trigger] old(self).claims(owner, chord(binding))
                    && msg@ == spec_display(binding) + " is already bound to \""@
                        + spec_action_name(owner) + "\""@
                    && ((exists|a: Action| a != action && #[trigger] old(self).primary_chord(a)
                        == Some(chord(binding))) ==> old(self).primary_chord(owner) == Some(chord(binding))),
            r is Ok ==> rebound(*old(self), action, binding, *final(self)),
    {
        match self.claimant(&binding, action) {
            Some(owner) => {
                let mut msg = binding.display();
                push_str(&mut msg, " is already bound to \"");
                push_str(&mut msg, owner.name());
                push_str(&mut msg, "\"");
                Err(msg)
            },
            None => {
                self.set(action, binding);
                Ok(())
            },
        }
    }

    /// Whether the action's primary binding or one of its alternates is the
    /// chord pressed this frame.
    pub fn check(&self, action: Action, keys: &KeyboardSnapshot) -> (r: bool)
        requires
            self.wf(),
        ensures
            r == self.fires(action, *keys),
    {
        let i = action.index();
        if let Some(b) = &self.bindings[i] {
            if b.matches(keys) {
                return true;
            }
        }
        assert(!(self.primary(action) matches Some(b) && spec_matches(b, *keys)));
        match &self.alternates[i] {
            Some(v) => {
                let r = any_matches(v, keys);
                proof {
                    let s = self.alternate_list(action)->0;
                    assert(s == v@);
                    if r {
                        let w = choose|j: int| 0 <= j < v@.len() && spec_matches(#[trigger] v@[j], *keys);
                        assert(0 <= w < s.len() && spec_matches(s[w], *keys));
                    }
                }
                r
            },
            None => false,
        }
    }

    /// Fill in from the shipped key map every primary binding and every
    /// entry of alternates that this map lacks; what it has stays.
    pub fn merge_defaults(&mut self)
        requires
            old(self).wf(),
        ensures
            final(self).wf(),
            forall|a: Action| old(self).primary(a) is Some ==> #[trigger] final(self).primary(a) == old(self).primary(a),
            forall|a: Action| old(self).primary(a) is None ==> #[trigger] final(self).primary_chord(a) == spec_default_chord(a),
            forall|a: Action| old(self).alternate_list(a) is Some ==> #[trigger] final(self).alternate_list(a) == old(self).alternate_list(a),
            forall|a: Action| old(self).alternate_list(a) is None ==> #[trigger] final(self).alternate_entry(a) == spec_default_alternates(a),
    {
        let defaults = KeyBindings::default();
        let ghost before = *self;
        let mut i: usize = 0;
        while i < ACTION_COUNT
            invariant
                i <= ACTION_COUNT,
                self.bindings@.len() == ACTION_COUNT,
                self.alternates@.len() == ACTION_COUNT,
                before.bindings@.len() == ACTION_COUNT,
                before.alternates@.len() == ACTION_COUNT,
                defaults.bindings@.len() == ACTION_COUNT,
                defaults.alternates@.len() == ACTION_COUNT,
                forall|j: int| i <= j < ACTION_COUNT ==> #[trigger] self.bindings@[j] == before.bindings@[j],
                forall|j: int| i <= j < ACTION_COUNT ==> #[trigger] self.alternates@[j] == before.alternates@[j],
                forall|j: int| 0 <= j < i ==> #[trigger] self.bindings@[j] == if before.bindings@[j] is Some {
                    before.bindings@[j]
                } else {
                    defaults.bindings@[j]
                },
                forall|j: int| 0 <= j < i ==> #[trigger] entry_view(self.alternates@[j]) == if before.alternates@[j] is Some {
                    entry_view(before.alternates@[j])
                } else {
                    entry_view(defaults.alternates@[j])
                },
            decreases ACTION_COUNT - i,
        {
            if self.bindings[i].is_none() {
                let b = clone_binding(&defaults.bindings[i]);
                self.bindings.set(i, b);
            }
            if self.alternates[i].is_none() {
                let v = match &defaults.alternates[i] {
                    Some(v) => Some(clone_bindings(v)),
                    None => None,
                };
                self.alternates.set(i, v);
            }
            i = i + 1;
        }
        proof {
            assert forall|a: Action| old(self).primary(a) is None implies #[trigger] self.primary_chord(a) == spec_default_chord(a) by {
                assert(defaults.primary_chord(a) == spec_default_chord(a));
            }
            assert forall|a: Action| old(self).alternate_list(a) is None implies #[trigger] self.alternate_entry(a) == spec_default_alternates(a) by {
                assert(defaults.alternate_entry(a) == spec_default_alternates(a));
            }
        }
    }
}

/// The binding the last entry for `a` gives it, if any entry does.
pub open spec fn last_entry<T>(s: Seq<(Action, T)>, a: Action) -> Option<T>
    decreases s.len(),
{
    if s.len() == 0 {
        None
    } else if s.last().0 == a {
        Some(s.last().1)
    } else {
        last_entry(s.drop_last(), a)
    }
}

/// The state `rebind` leaves on success: the action's primary binding is
/// the new one, and nothing else changed.
pub open spec fn rebound(before: KeyBindings, action: Action, binding: KeyBinding, after: KeyBindings) -> bool {
    &&& after.wf()
    &&& after.primary(action) == Some(binding)
    &&& forall|a: Action| a != action ==> #[trigger] after.primary(a) == before.primary(a)
    &&& forall|a: Action| #[trigger] after.alternate_list(a) == before.alternate_list(a)
}

impl KeyBindings {
    /// A key map from a list of primary entries and a list of alternate
    /// entries, as a saved file lists them; where an action has several
    /// entries, the last one counts.
    pub fn from_entries(bindings: Vec<(Action, KeyBinding)>, alternates: Vec<(Action, Vec<KeyBinding>)>) -> (r: Self)
        ensures
            r.wf(),
            forall|a: Action| #[trigger] r.primary(a) == last_entry(bindings@, a),
            forall|a: Action| #[trigger] r.alternate_list(a) == entry_view(last_entry(alternates@, a)),
    {
        let mut slots: Vec<Option<KeyBinding>> = Vec::new();
        let mut alts: Vec<Option<Vec<KeyBinding>>> = Vec::new();
        let mut i: usize = 0;
        while i < ACTION_COUNT
            invariant
                i <= ACTION_COUNT,
                slots@.len() == i,
                alts@.len() == i,
                forall|j: int| 0 <= j < i ==> (#[trigger] slots@[j]) is None,
                forall|j: int| 0 <= j < i ==> (#[trigger] alts@[j]) is None,
            decreases ACTION_COUNT - i,
        {
            slots.push(None);
            alts.push(None);
            i = i + 1;
        }
        let mut i: usize = 0;
        while i < bindings.len()
            invariant
                i <= bindings@.len(),
                slots@.len() == ACTION_COUNT,
                forall|a: Action| #[trigger] slots@[action_index(a) as int] == last_entry(bindings@.take(i as int), a),
            decreases bindings.len() - i,
        {
            let a = bindings[i].0;
            let b = bindings[i].1.clone();
            let k = a.index();
            slots.set(k, Some(b));
            proof {
                assert(bindings@.take(i + 1).drop_last() =~= bindings@.take(i as int));
                assert forall|x: Action| #[trigger] slots@[action_index(x) as int] == last_entry(bindings@.take(i + 1), x) by {
                    lemma_action_index(x);
                    lemma_action_index_injective(x, a);
                }
            }
            i = i + 1;
        }
        let mut i: usize = 0;
        while i < alternates.len()
            invariant
                i <= alternates@.len(),
                alts@.len() == ACTION_COUNT,
                forall|a: Action| #[trigger] entry_view(alts@[action_index(a) as int]) == entry_view(last_entry(alternates@.take(i as int), a)),
            decreases alternates.len() - i,
        {
            let a = alternates[i].0;
            let v = clone_bindings(&alternates[i].1);
            let k = a.index();
            alts.set(k, Some(v));
            proof {
                assert(alternates@.take(i + 1).drop_last() =~= alternates@.take(i as int));
                assert forall|x: Action| #[trigger] entry_view(alts@[action_index(x) as int]) == entry_view(last_entry(alternates@.take(i + 1), x)) by {
                    lemma_action_index(x);
                    lemma_action_index_injective(x, a);
                }
            }
            i = i + 1;
        }
        proof {
            assert(bindings@.take(bindings@.len() as int) =~= bindings@);
            assert(alternates@.take(alternates@.len() as int) =~= alternates@);
        }
        KeyBindings { bindings: slots, alternates: alts }
    }
}

/// The tool a shortcut switches to.
#[derive(Debug, Clone, Copy, PartialEq, Eq, Structural)]
pub enum ToolSwitch {
    Select,
    Move,
    Scale,
    Rotate,
}

/// What one frame's keys ask of the editor.
#[derive(Debug, Clone, Copy, PartialEq, Eq, Structural)]
pub enum Shortcut {
    /// No shortcut fires.
    Nothing,
    /// Switch the current tool.
    SwitchTool(ToolSwitch),
    /// Send the action to the menu handler.
    Menu(Action),
}

/// What the frame knows besides its keys.
pub struct ShortcutContext {
    /// A text field has the keyboard.
    pub text_input_focused: bool,
    /// An overlay dialog has the keyboard.
    pub overlay_focused: bool,
    /// The cursor is over the 3D viewport.
    pub cursor_over_viewport: bool,
    /// A modal tool is armed and owns the cursor.
    pub modal_tool_active: bool,
}

/// The first action of `s` that fires on these keys.
pub open spec fn first_firing(kb: KeyBindings, keys: KeyboardSnapshot, s: Seq<Action>) -> Option<Action>
    decreases s.len(),
{
    if s.len() == 0 {
        None
    } else if kb.fires(s[0], keys) {
        Some(s[0])
    } else {
        first_firing(kb, keys, s.drop_first())
    }
}

/// Whether Delete, or Backspace when no modal tool claims it, deletes the
/// selection: the cursor must be over the viewport, with neither Ctrl nor
/// Alt held.
pub open spec fn delete_key_fires(keys: KeyboardSnapshot, ctx: ShortcutContext) -> bool {
    let backspace = key_down(keys, "Backspace"@);
    let backspace_owned_by_modal_tool = backspace && ctx.modal_tool_active;
    &&& (key_down(keys, "Delete"@) || (backspace && !backspace_owned_by_modal_tool))
    &&& ctx.cursor_over_viewport
    &&& !keys.ctrl
    &&& !keys.alt
}

/// The shortcut a frame fires: none while a text field or an overlay has
/// the keyboard; else the first of the tool switches Select, Move, Scale,
/// Rotate that fires; else Delete when the delete key fires; else the
/// first dispatched action that fires.
pub open spec fn spec_shortcut(kb: KeyBindings, keys: KeyboardSnapshot, ctx: ShortcutContext) -> Shortcut {
    if ctx.text_input_focused || ctx.overlay_focused {
        Shortcut::Nothing
    } else if kb.fires(Action::SelectTool, keys) {
        Shortcut::SwitchTool(ToolSwitch::Select)
    } else if kb.fires(Action::MoveTool, keys) {
        Shortcut::SwitchTool(ToolSwitch::Move)
    } else if kb.fires(Action::ScaleTool, keys) {
        Shortcut::SwitchTool(ToolSwitch::Scale)
    } else if kb.fires(Action::RotateTool, keys) {
        Shortcut::SwitchTool(ToolSwitch::Rotate)
    } else if delete_key_fires(keys, ctx) {
        Shortcut::Menu(Action::Delete)
    } else {
        match first_firing(kb, keys, spec_dispatched_actions()) {
            Some(a) => Shortcut::Menu(a),
            None => Shortcut::Nothing,
        }
    }
}

/// The shortcut this frame's keys fire.
pub fn dispatch_keyboard_shortcuts(bindings: &KeyBindings, keys: &KeyboardSnapshot, ctx: &ShortcutContext) -> (r: Shortcut)
    requires
        bindings.wf(),
    ensures
        r == spec_shortcut(*bindings, *keys, *ctx),
{
    if ctx.text_input_focused || ctx.overlay_focused {
        return Shortcut::Nothing;
    }
    if bindings.check(Action::SelectTool, keys) {
        return Shortcut::SwitchTool(ToolSwitch::Select);
    }
    if bindings.check(Action::MoveTool, keys) {
        return Shortcut::SwitchTool(ToolSwitch::Move);
    }
    if bindings.check(Action::ScaleTool, keys) {
        return Shortcut::SwitchTool(ToolSwitch::Scale);
    }
    if bindings.check(Action::RotateTool, keys) {
        return Shortcut::SwitchTool(ToolSwitch::Rotate);
    }
    let backspace = keys.is_just_pressed("Backspace");
    let backspace_owned_by_modal_tool = backspace && ctx.modal_tool_active;
    if (keys.is_just_pressed("Delete") || (backspace && !backspace_owned_by_modal_tool))
        && ctx.cursor_over_viewport
    {
        if !keys.ctrl && !keys.alt {
            return Shortcut::Menu(Action::Delete);
        }
    }
    let acts = dispatched_actions();
    assert(acts@.skip(0) =~= acts@);
    assert(spec_shortcut(*bindings, *keys, *ctx) == match first_firing(*bindings, *keys, acts@) {
        Some(a) => Shortcut::Menu(a),
        None => Shortcut::Nothing,
    });
    let mut i: usize = 0;
    while i < acts.len()
        invariant
            bindings.wf(),
            acts@ == spec_dispatched_actions(),
            i <= acts@.len(),
            spec_shortcut(*bindings, *keys, *ctx) == match first_firing(*bindings, *keys, acts@) {
                Some(a) => Shortcut::Menu(a),
                None => Shortcut::Nothing,
            },
            first_firing(*bindings, *keys, acts@) == first_firing(*bindings, *keys, acts@.skip(i as int)),
        decreases acts.len() - i,
    {
        let a = acts[i];
        assert(acts@.skip(i as int)[0] == a);
        if bindings.check(a, keys) {
            return Shortcut::Menu(a);
        }
        proof {
            assert(acts@.skip(i as int).drop_first() =~= acts@.skip(i + 1));
        }
        i = i + 1;
    }
    Shortcut::Nothing
}

/// Rebinding keeps a key map free of clashes: if no chord was claimed by
/// two actions before a successful rebind, none is after it.
pub proof fn law_rebind_keeps_clash_free(before: KeyBindings, action: Action, binding: KeyBinding, after: KeyBindings)
    requires
        before.wf(),
        before.free_of_clashes(),
        forall|a: Action| a != action ==> !#[trigger] before.claims(a, chord(binding)),
        rebound(before, action, binding, after),
    ensures
        after.free_of_clashes(),
{
    assert forall|a: Action, b: Action, c: Chord| a != b && #[trigger] after.claims(a, c) implies !#[trigger] after.claims(b, c) by {
        assert(after.alternate_list(a) == before.alternate_list(a));
        assert(after.alternate_list(b) == before.alternate_list(b));
        assert(after.alternate_chords(a) == before.alternate_chords(a));
        assert(after.alternate_chords(b) == before.alternate_chords(b));
        if a == action {
            assert(after.primary(b) == before.primary(b));
            if after.primary_chord(a) == Some(c) {
                assert(c == chord(binding));
                assert(!before.claims(b, c));
            } else {
                assert(before.claims(a, c));
                assert(!before.claims(b, c));
            }
        } else if b == action {
            assert(after.primary(a) == before.primary(a));
            assert(before.claims(a, c));
            if after.primary_chord(b) == Some(c) {
                assert(c == chord(binding));
                assert(!before.claims(a, c));
            } else {
                assert(!before.claims(b, c));
            }
        } else {
            assert(after.primary(a) == before.primary(a));
            assert(after.primary(b) == before.primary(b));
            assert(before.claims(a, c));
            assert(!before.claims(b, c));
        }
    }
}

/// After a successful rebind, the new chord fires the action.
pub proof fn law_rebound_chord_fires(before: KeyBindings, action: Action, binding: KeyBinding, after: KeyBindings, keys: KeyboardSnapshot)
    requires
        rebound(before, action, binding, after),
        spec_matches(binding, keys),
    ensures
        after.fires(action, keys),
{
}

/// The dispatched actions that deliberately have no default chord: the
/// four CSG operations, which are mouse-driven and multi-step.
pub open spec fn is_allowed_unbound(a: Action) -> bool {
    a == Action::CSGNegate || a == Action::CSGUnion || a == Action::CSGIntersect || a == Action::CSGSeparate
}

/// The dispatched actions that deliberately have no default chord.
pub fn allowed_unbound() -> (r: Vec<Action>)
    ensures
        forall|a: Action| #[trigger] r@.contains(a) <==> is_allowed_unbound(a),
{
    let r = vec![Action::CSGNegate, Action::CSGUnion, Action::CSGIntersect, Action::CSGSeparate];
    assert forall|a: Action| #[trigger] r@.contains(a) <==> is_allowed_unbound(a) by {
        if is_allowed_unbound(a) {
            if a == Action::CSGNegate {
                assert(r@[0] == a);
            } else if a == Action::CSGUnion {
                assert(r@[1] == a);
            } else if a == Action::CSGIntersect {
                assert(r@[2] == a);
            } else {
                assert(r@[3] == a);
            }
        }
    }
    r
}

/// Every action the dispatcher tests has a default chord, unless it is one
/// of the deliberately unbound ones, which have none.
pub proof fn law_dispatched_actions_are_bound(i: int)
    requires
        0 <= i < spec_dispatched_actions().len(),
    ensures
        spec_default_chord(spec_dispatched_actions()[i]) is Some
            <==> !is_allowed_unbound(spec_dispatched_actions()[i]),
{
    let d = spec_dispatched_actions();
    assert forall|j: int| 0 <= j < d.len() implies d[j] != Action::StopServer by {
        assert(d[j] != Action::StopServer);
    }
}

/// A chord is pressed only with exactly its modifiers held: a binding
/// matches a frame only when its Ctrl, Alt and Shift flags each equal
/// what is held, and its key went down. So Ctrl+A never fires while Alt is
/// also held, and Ctrl+Alt+A never fires without Alt.
pub proof fn law_chord_needs_exactly_its_modifiers(b: KeyBinding, keys: KeyboardSnapshot)
    ensures
        spec_matches(b, keys) ==> b.ctrl == keys.ctrl && b.alt == keys.alt && b.shift == keys.shift,
        spec_matches(b, keys) ==> exists|i: int| 0 <= i < keys.just_pressed@.len() && (#[trigger] keys.just_pressed@[i])@ == b.key@,
        (b.ctrl != keys.ctrl || b.alt != keys.alt || b.shift != keys.shift) ==> !spec_matches(b, keys),
{
}

} // verus!
