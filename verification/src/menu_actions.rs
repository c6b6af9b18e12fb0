//! What each menu action does to the editor, decided without the editor:
//! the routing of actions to effects, the target value of the Anchor, Lock
//! and Unlock flag edits, which way Focus goes, the parsing of the folder
//! names that binary-ECS instances live under, and what Delete does with
//! each selected entity and where its trash goes.

use vstd::prelude::*;
use crate::keybindings::{Action, ToolSwitch};
use crate::text::{chars_of, digit_char, push_char, push_str, str_eq};

verus! {

/// A File-menu command.
#[derive(Debug, Clone, Copy, PartialEq, Eq, Structural)]
pub enum FileCommand {
    SaveScene,
    NewScene,
    NewUniverse,
    OpenScene,
    SaveSceneAs,
}

/// A docked panel.
#[derive(Debug, Clone, Copy, PartialEq, Eq, Structural)]
pub enum Panel {
    Explorer,
    Properties,
    Output,
}

/// A snapping choice: a one-stud grid, a fifth-of-a-stud grid, or none.
#[derive(Debug, Clone, Copy, PartialEq, Eq, Structural)]
pub enum SnapChoice {
    OneStud,
    FifthStud,
    Off,
}

/// A hierarchy-selection command.
#[derive(Debug, Clone, Copy, PartialEq, Eq, Structural)]
pub enum HierarchySelect {
    Children,
    Descendants,
    Parent,
    Siblings,
    Invert,
}

/// A part boolean the flag edits work on.
#[derive(Debug, Clone, Copy, PartialEq, Eq, Structural)]
pub enum PartFlag {
    Anchored,
    Locked,
}

/// A flag edit over the selection.
#[derive(Debug, Clone, Copy, PartialEq, Eq, Structural)]
pub enum FlagEdit {
    /// Anchor every part if any is loose, else release them all.
    ToggleAnchor,
    /// Lock every part.
    Lock,
    /// Unlock every part.
    Unlock,
}

/// A modal tool the Smart Build shortcuts activate.
#[derive(Debug, Clone, Copy, PartialEq, Eq, Structural)]
pub enum SmartTool {
    PartSwap,
    EdgeAlign,
    ModelReflect,
    GapFill,
    ResizeAlign,
    MaterialFlip,
    LinearArray,
    RadialArray,
    GridArray,
    PathArray,
}

/// What a menu action does.
#[derive(Debug, Clone, Copy, PartialEq, Eq, Structural)]
pub enum MenuEffect {
    /// Switch the current tool.
    SetTool(ToolSwitch),
    /// Flip the gizmo frame between world and local axes.
    ToggleTransformSpace,
    /// Send a File-menu command.
    File(FileCommand),
    /// Undo in both histories: selection commands and transforms.
    Undo,
    /// Redo in both histories.
    Redo,
    /// Show or hide a panel.
    TogglePanel(Panel),
    /// Copy the selection, cutting it when `is_cut`.
    Copy { is_cut: bool },
    /// Paste on the next frame.
    Paste,
    /// Frame the selection, or go to a selected camera's viewpoint.
    FocusSelection,
    /// Set snapping.
    Snap(SnapChoice),
    /// Delete the selection.
    Delete,
    /// Select every unlocked part.
    SelectAll,
    /// Copy and paste in place.
    Duplicate,
    /// A hierarchy-selection command.
    SelectHierarchy(HierarchySelect),
    /// A flag edit over the selection.
    EditFlag(FlagEdit),
    /// Activate a Smart Build tool.
    ActivateTool(SmartTool),
    /// Handled by another part of the editor, or not at all here.
    HandledElsewhere,
}

/// The effect of each action.
pub open spec fn spec_menu_effect(a: Action) -> MenuEffect {
    match a {
        Action::SelectTool => MenuEffect::SetTool(ToolSwitch::Select),
        Action::MoveTool => MenuEffect::SetTool(ToolSwitch::Move),
        Action::ScaleTool => MenuEffect::SetTool(ToolSwitch::Scale),
        Action::RotateTool => MenuEffect::SetTool(ToolSwitch::Rotate),
        Action::ToggleTransformSpace => MenuEffect::ToggleTransformSpace,
        Action::SaveScene => MenuEffect::File(FileCommand::SaveScene),
        Action::NewSpace => MenuEffect::File(FileCommand::NewScene),
        Action::NewUniverse => MenuEffect::File(FileCommand::NewUniverse),
        Action::OpenFile => MenuEffect::File(FileCommand::OpenScene),
        Action::SaveSceneAs => MenuEffect::File(FileCommand::SaveSceneAs),
        Action::Undo => MenuEffect::Undo,
        Action::Redo => MenuEffect::Redo,
        Action::ToggleExplorer => MenuEffect::TogglePanel(Panel::Explorer),
        Action::ToggleProperties => MenuEffect::TogglePanel(Panel::Properties),
        Action::ToggleOutput => MenuEffect::TogglePanel(Panel::Output),
        Action::Copy => MenuEffect::Copy { is_cut: false },
        Action::Cut => MenuEffect::Copy { is_cut: true },
        Action::Paste => MenuEffect::Paste,
        Action::FocusSelection => MenuEffect::FocusSelection,
        Action::SnapMode1 => MenuEffect::Snap(SnapChoice::OneStud),
        Action::SnapMode2 => MenuEffect::Snap(SnapChoice::FifthStud),
        Action::SnapModeOff => MenuEffect::Snap(SnapChoice::Off),
        Action::Delete => MenuEffect::Delete,
        Action::SelectAll => MenuEffect::SelectAll,
        Action::Duplicate => MenuEffect::Duplicate,
        Action::SelectChildren => MenuEffect::SelectHierarchy(HierarchySelect::Children),
        Action::SelectDescendants => MenuEffect::SelectHierarchy(HierarchySelect::Descendants),
        Action::SelectParent => MenuEffect::SelectHierarchy(HierarchySelect::Parent),
        Action::SelectSiblings => MenuEffect::SelectHierarchy(HierarchySelect::Siblings),
        Action::InvertSelection => MenuEffect::SelectHierarchy(HierarchySelect::Invert),
        Action::ToggleAnchor => MenuEffect::EditFlag(FlagEdit::ToggleAnchor),
        Action::LockSelection => MenuEffect::EditFlag(FlagEdit::Lock),
        Action::UnlockSelection => MenuEffect::EditFlag(FlagEdit::Unlock),
        Action::ToolPartSwap => MenuEffect::ActivateTool(SmartTool::PartSwap),
        Action::ToolEdgeAlign => MenuEffect::ActivateTool(SmartTool::EdgeAlign),
        Action::ToolModelReflect => MenuEffect::ActivateTool(SmartTool::ModelReflect),
        Action::ToolGapFill => MenuEffect::ActivateTool(SmartTool::GapFill),
        Action::ToolResizeAlign => MenuEffect::ActivateTool(SmartTool::ResizeAlign),
        Action::ToolMaterialFlip => MenuEffect::ActivateTool(SmartTool::MaterialFlip),
        Action::ToolLinearArray => MenuEffect::ActivateTool(SmartTool::LinearArray),
        Action::ToolRadialArray => MenuEffect::ActivateTool(SmartTool::RadialArray),
        Action::ToolGridArray => MenuEffect::ActivateTool(SmartTool::GridArray),
        Action::ToolPathArray => MenuEffect::ActivateTool(SmartTool::PathArray),
        _ => MenuEffect::HandledElsewhere,
    }
}

/// What a menu action does.
pub fn menu_effect(a: Action) -> (r: MenuEffect)
    ensures
        r == spec_menu_effect(a),
{
    match a {
        Action::SelectTool => MenuEffect::SetTool(ToolSwitch::Select),
        Action::MoveTool => MenuEffect::SetTool(ToolSwitch::Move),
        Action::ScaleTool => MenuEffect::SetTool(ToolSwitch::Scale),
        Action::RotateTool => MenuEffect::SetTool(ToolSwitch::Rotate),
        Action::ToggleTransformSpace => MenuEffect::ToggleTransformSpace,
        Action::SaveScene => MenuEffect::File(FileCommand::SaveScene),
        Action::NewSpace => MenuEffect::File(FileCommand::NewScene),
        Action::NewUniverse => MenuEffect::File(FileCommand::NewUniverse),
        Action::OpenFile => MenuEffect::File(FileCommand::OpenScene),
        Action::SaveSceneAs => MenuEffect::File(FileCommand::SaveSceneAs),
        Action::Undo => MenuEffect::Undo,
        Action::Redo => MenuEffect::Redo,
        Action::ToggleExplorer => MenuEffect::TogglePanel(Panel::Explorer),
        Action::ToggleProperties => MenuEffect::TogglePanel(Panel::Properties),
        Action::ToggleOutput => MenuEffect::TogglePanel(Panel::Output),
        Action::Copy => MenuEffect::Copy { is_cut: false },
        Action::Cut => MenuEffect::Copy { is_cut: true },
        Action::Paste => MenuEffect::Paste,
        Action::FocusSelection => MenuEffect::FocusSelection,
        Action::SnapMode1 => MenuEffect::Snap(SnapChoice::OneStud),
        Action::SnapMode2 => MenuEffect::Snap(SnapChoice::FifthStud),
        Action::SnapModeOff => MenuEffect::Snap(SnapChoice::Off),
        Action::Delete => MenuEffect::Delete,
        Action::SelectAll => MenuEffect::SelectAll,
        Action::Duplicate => MenuEffect::Duplicate,
        Action::SelectChildren => MenuEffect::SelectHierarchy(HierarchySelect::Children),
        Action::SelectDescendants => MenuEffect::SelectHierarchy(HierarchySelect::Descendants),
        Action::SelectParent => MenuEffect::SelectHierarchy(HierarchySelect::Parent),
        Action::SelectSiblings => MenuEffect::SelectHierarchy(HierarchySelect::Siblings),
        Action::InvertSelection => MenuEffect::SelectHierarchy(HierarchySelect::Invert),
        Action::ToggleAnchor => MenuEffect::EditFlag(FlagEdit::ToggleAnchor),
        Action::LockSelection => MenuEffect::EditFlag(FlagEdit::Lock),
        Action::UnlockSelection => MenuEffect::EditFlag(FlagEdit::Unlock),
        Action::ToolPartSwap => MenuEffect::ActivateTool(SmartTool::PartSwap),
        Action::ToolEdgeAlign => MenuEffect::ActivateTool(SmartTool::EdgeAlign),
        Action::ToolModelReflect => MenuEffect::ActivateTool(SmartTool::ModelReflect),
        Action::ToolGapFill => MenuEffect::ActivateTool(SmartTool::GapFill),
        Action::ToolResizeAlign => MenuEffect::ActivateTool(SmartTool::ResizeAlign),
        Action::ToolMaterialFlip => MenuEffect::ActivateTool(SmartTool::MaterialFlip),
        Action::ToolLinearArray => MenuEffect::ActivateTool(SmartTool::LinearArray),
        Action::ToolRadialArray => MenuEffect::ActivateTool(SmartTool::RadialArray),
        Action::ToolGridArray => MenuEffect::ActivateTool(SmartTool::GridArray),
        Action::ToolPathArray => MenuEffect::ActivateTool(SmartTool::PathArray),
        _ => MenuEffect::HandledElsewhere,
    }
}

/// The action an effect is for: each effect but `HandledElsewhere` comes
/// from exactly one action, the one named after it.
pub open spec fn effect_action(e: MenuEffect) -> Option<Action> {
    match e {
        MenuEffect::SetTool(ToolSwitch::Select) => Some(Action::SelectTool),
        MenuEffect::SetTool(ToolSwitch::Move) => Some(Action::MoveTool),
        MenuEffect::SetTool(ToolSwitch::Scale) => Some(Action::ScaleTool),
        MenuEffect::SetTool(ToolSwitch::Rotate) => Some(Action::RotateTool),
        MenuEffect::ToggleTransformSpace => Some(Action::ToggleTransformSpace),
        MenuEffect::File(FileCommand::SaveScene) => Some(Action::SaveScene),
        MenuEffect::File(FileCommand::NewScene) => Some(Action::NewSpace),
        MenuEffect::File(FileCommand::NewUniverse) => Some(Action::NewUniverse),
        MenuEffect::File(FileCommand::OpenScene) => Some(Action::OpenFile),
        MenuEffect::File(FileCommand::SaveSceneAs) => Some(Action::SaveSceneAs),
        MenuEffect::Undo => Some(Action::Undo),
        MenuEffect::Redo => Some(Action::Redo),
        MenuEffect::TogglePanel(Panel::Explorer) => Some(Action::ToggleExplorer),
        MenuEffect::TogglePanel(Panel::Properties) => Some(Action::ToggleProperties),
        MenuEffect::TogglePanel(Panel::Output) => Some(Action::ToggleOutput),
        MenuEffect::Copy { is_cut } => Some(if is_cut { Action::Cut } else { Action::Copy }),
        MenuEffect::Paste => Some(Action::Paste),
        MenuEffect::FocusSelection => Some(Action::FocusSelection),
        MenuEffect::Snap(SnapChoice::OneStud) => Some(Action::SnapMode1),
        MenuEffect::Snap(SnapChoice::FifthStud) => Some(Action::SnapMode2),
        MenuEffect::Snap(SnapChoice::Off) => Some(Action::SnapModeOff),
        MenuEffect::Delete => Some(Action::Delete),
        MenuEffect::SelectAll => Some(Action::SelectAll),
        MenuEffect::Duplicate => Some(Action::Duplicate),
        MenuEffect::SelectHierarchy(HierarchySelect::Children) => Some(Action::SelectChildren),
        MenuEffect::SelectHierarchy(HierarchySelect::Descendants) => Some(Action::SelectDescendants),
        MenuEffect::SelectHierarchy(HierarchySelect::Parent) => Some(Action::SelectParent),
        MenuEffect::SelectHierarchy(HierarchySelect::Siblings) => Some(Action::SelectSiblings),
        MenuEffect::SelectHierarchy(HierarchySelect::Invert) => Some(Action::InvertSelection),
        MenuEffect::EditFlag(FlagEdit::ToggleAnchor) => Some(Action::ToggleAnchor),
        MenuEffect::EditFlag(FlagEdit::Lock) => Some(Action::LockSelection),
        MenuEffect::EditFlag(FlagEdit::Unlock) => Some(Action::UnlockSelection),
        MenuEffect::ActivateTool(SmartTool::PartSwap) => Some(Action::ToolPartSwap),
        MenuEffect::ActivateTool(SmartTool::EdgeAlign) => Some(Action::ToolEdgeAlign),
        MenuEffect::ActivateTool(SmartTool::ModelReflect) => Some(Action::ToolModelReflect),
        MenuEffect::ActivateTool(SmartTool::GapFill) => Some(Action::ToolGapFill),
        MenuEffect::ActivateTool(SmartTool::ResizeAlign) => Some(Action::ToolResizeAlign),
        MenuEffect::ActivateTool(SmartTool::MaterialFlip) => Some(Action::ToolMaterialFlip),
        MenuEffect::ActivateTool(SmartTool::LinearArray) => Some(Action::ToolLinearArray),
        MenuEffect::ActivateTool(SmartTool::RadialArray) => Some(Action::ToolRadialArray),
        MenuEffect::ActivateTool(SmartTool::GridArray) => Some(Action::ToolGridArray),
        MenuEffect::ActivateTool(SmartTool::PathArray) => Some(Action::ToolPathArray),
        MenuEffect::HandledElsewhere => None,
    }
}

/// Each effect the menu performs belongs to its own action: an action that
/// has an effect here has the effect named for it, so no two actions share
/// one (Undo undoes and Redo redoes, Copy copies and Cut cuts), and an
/// action with no effect of its own is handled elsewhere.
pub proof fn law_each_effect_belongs_to_its_action(a: Action, b: Action)
    ensures
        spec_menu_effect(a) != MenuEffect::HandledElsewhere ==> effect_action(spec_menu_effect(a)) == Some(a),
        spec_menu_effect(a) == MenuEffect::HandledElsewhere ==> effect_action(spec_menu_effect(a)) is None,
        spec_menu_effect(a) == spec_menu_effect(b) && spec_menu_effect(a) != MenuEffect::HandledElsewhere ==> a == b,
        spec_menu_effect(a) == MenuEffect::Undo <==> a == Action::Undo,
        spec_menu_effect(a) == MenuEffect::Redo <==> a == Action::Redo,
        spec_menu_effect(a) == (MenuEffect::Copy { is_cut: true }) <==> a == Action::Cut,
        spec_menu_effect(a) == (MenuEffect::Copy { is_cut: false }) <==> a == Action::Copy,
{
}

/// The registry identifier of a Smart Build tool.
pub open spec fn spec_tool_id(t: SmartTool) -> Seq<char> {
    match t {
        SmartTool::PartSwap => "part_swap_positions"@,
        SmartTool::EdgeAlign => "edge_align"@,
        SmartTool::ModelReflect => "model_reflect"@,
        SmartTool::GapFill => "gap_fill"@,
        SmartTool::ResizeAlign => "resize_align"@,
        SmartTool::MaterialFlip => "material_flip"@,
        SmartTool::LinearArray => "linear_array"@,
        SmartTool::RadialArray => "radial_array"@,
        SmartTool::GridArray => "grid_array"@,
        SmartTool::PathArray => "path_array"@,
    }
}

impl SmartTool {
    /// The registry identifier of the tool.
    pub fn tool_id(self) -> (r: &'static str)
        ensures
            r@ == spec_tool_id(self),
    {
        match self {
            SmartTool::PartSwap => "part_swap_positions",
            SmartTool::EdgeAlign => "edge_align",
            SmartTool::ModelReflect => "model_reflect",
            SmartTool::GapFill => "gap_fill",
            SmartTool::ResizeAlign => "resize_align",
            SmartTool::MaterialFlip => "material_flip",
            SmartTool::LinearArray => "linear_array",
            SmartTool::RadialArray => "radial_array",
            SmartTool::GridArray => "grid_array",
            SmartTool::PathArray => "path_array",
        }
    }
}

/// The flag an edit works on: Anchored for the anchor toggle, Locked for
/// Lock and Unlock.
pub open spec fn spec_flag_of(e: FlagEdit) -> PartFlag {
    match e {
        FlagEdit::ToggleAnchor => PartFlag::Anchored,
        _ => PartFlag::Locked,
    }
}

/// Whether some part's flag is off.
pub open spec fn any_off(current: Seq<bool>) -> bool {
    exists|i: int| 0 <= i < current.len() && !#[trigger] current[i]
}

/// The value an edit gives every selected part: Lock sets, Unlock clears,
/// the anchor toggle sets when any part is loose and clears otherwise.
pub open spec fn spec_flag_target(e: FlagEdit, current: Seq<bool>) -> bool {
    match e {
        FlagEdit::Lock => true,
        FlagEdit::Unlock => false,
        FlagEdit::ToggleAnchor => any_off(current),
    }
}

/// The positions whose flag differs from `v`, in order.
pub open spec fn changed_positions(current: Seq<bool>, v: bool, upto: int) -> Seq<usize>
    decreases upto,
{
    if upto <= 0 {
        Seq::empty()
    } else if current[upto - 1] != v {
        changed_positions(current, v, upto - 1).push((upto - 1) as usize)
    } else {
        changed_positions(current, v, upto - 1)
    }
}

/// The property name the flag is saved and undone under.
pub open spec fn spec_flag_property(f: PartFlag) -> Seq<char> {
    match f {
        PartFlag::Anchored => "Anchored"@,
        PartFlag::Locked => "Locked"@,
    }
}

impl FlagEdit {
    /// The flag the edit works on.
    pub fn flag(self) -> (r: PartFlag)
        ensures
            r == spec_flag_of(self),
    {
        match self {
            FlagEdit::ToggleAnchor => PartFlag::Anchored,
            _ => PartFlag::Locked,
        }
    }

    /// The value the edit gives every selected part, from the parts'
    /// current values of its flag.
    pub fn target(self, current: &Vec<bool>) -> (r: bool)
        ensures
            r == spec_flag_target(self, current@),
    {
        match self {
            FlagEdit::Lock => true,
            FlagEdit::Unlock => false,
            FlagEdit::ToggleAnchor => {
                let mut off = false;
                let mut i: usize = 0;
                while i < current.len()
                    invariant
                        i <= current@.len(),
                        off == exists|j: int| 0 <= j < i && !#[trigger] current@[j],
                    decreases current.len() - i,
                {
                    if !current[i] {
                        off = true;
                    }
                    i = i + 1;
                }
                off
            },
        }
    }
}

impl PartFlag {
    /// The property name the flag is saved and undone under.
    pub fn property(self) -> (r: &'static str)
        ensures
            r@ == spec_flag_property(self),
    {
        match self {
            PartFlag::Anchored => "Anchored",
            PartFlag::Locked => "Locked",
        }
    }

    /// The log icon for the flag's new value.
    pub fn log_icon(self, value: bool) -> (r: &'static str)
        ensures
            r@ == match (self, value) {
                (PartFlag::Anchored, true) => "⚓"@,
                (PartFlag::Anchored, false) => "🎈"@,
                (PartFlag::Locked, true) => "🔒"@,
                (PartFlag::Locked, false) => "🔓"@,
            },
    {
        match (self, value) {
            (PartFlag::Anchored, true) => "⚓",
            (PartFlag::Anchored, false) => "🎈",
            (PartFlag::Locked, true) => "🔒",
            (PartFlag::Locked, false) => "🔓",
        }
    }
}

/// The positions of the parts an edit to `v` changes: those whose flag is
/// not already `v`. Only these are written and recorded for undo.
pub fn flag_changes(current: &Vec<bool>, v: bool) -> (r: Vec<usize>)
    ensures
        r@ == changed_positions(current@, v, current@.len() as int),
{
    let mut out: Vec<usize> = Vec::new();
    let mut i: usize = 0;
    while i < current.len()
        invariant
            i <= current@.len(),
            out@ == changed_positions(current@, v, i as int),
        decreases current.len() - i,
    {
        if current[i] != v {
            out.push(i);
        }
        i = i + 1;
    }
    out
}

/// One anchor-toggle press leaves the selection uniform; the next press
/// flips it as a whole, so repeated presses alternate between all anchored
/// and all loose.
pub proof fn law_anchor_toggle_alternates(current: Seq<bool>)
    requires
        current.len() > 0,
    ensures
        ({
            let v1 = spec_flag_target(FlagEdit::ToggleAnchor, current);
            let after = Seq::new(current.len(), |i: int| v1);
            spec_flag_target(FlagEdit::ToggleAnchor, after) == !v1
        }),
{
    let v1 = spec_flag_target(FlagEdit::ToggleAnchor, current);
    let after = Seq::new(current.len(), |i: int| v1);
    if !v1 {
        assert(!after[0]);
    }
}

/// Lock and Unlock are directional: applying one to a selection it already
/// describes changes no part.
pub proof fn law_lock_is_idempotent(current: Seq<bool>, e: FlagEdit)
    requires
        e != FlagEdit::ToggleAnchor,
        forall|i: int| 0 <= i < current.len() ==> #[trigger] current[i] == spec_flag_target(e, current),
    ensures
        forall|k: int| 0 <= k <= current.len() ==> #[trigger] changed_positions(current, spec_flag_target(e, current), k) == Seq::<usize>::empty(),
{
    let v = spec_flag_target(e, current);
    assert forall|k: int| 0 <= k <= current.len() implies #[trigger] changed_positions(current, v, k) == Seq::<usize>::empty() by {
        lemma_no_changes(current, v, k);
    }
}

proof fn lemma_no_changes(current: Seq<bool>, v: bool, k: int)
    requires
        0 <= k <= current.len(),
        forall|i: int| 0 <= i < current.len() ==> #[trigger] current[i] == v,
    ensures
        changed_positions(current, v, k) == Seq::<usize>::empty(),
    decreases k,
{
    if k > 0 {
        lemma_no_changes(current, v, k - 1);
    }
}

/// Where Focus goes.
#[derive(Debug, Clone, Copy, PartialEq, Eq, Structural)]
pub enum FocusChoice {
    /// To the viewpoint of the selected camera at this position (the last
    /// one, when several are selected).
    GoToCamera(usize),
    /// Frame the bounds of the selected parts.
    Frame,
    /// Nothing is selected: stay.
    Stay,
}

/// Focus on the selection, given for each selected entity whether it is a
/// camera: a selected camera wins (the last one); else any selected part
/// is framed; an empty selection does nothing.
pub fn focus_choice(is_camera: &Vec<bool>) -> (r: FocusChoice)
    ensures
        match r {
            FocusChoice::GoToCamera(i) => i < is_camera@.len() && is_camera@[i as int]
                && forall|j: int| i < j < is_camera@.len() ==> !#[trigger] is_camera@[j],
            FocusChoice::Frame => (forall|j: int| 0 <= j < is_camera@.len() ==> !#[trigger] is_camera@[j])
                && is_camera@.len() > 0,
            FocusChoice::Stay => is_camera@.len() == 0,
        },
{
    let mut camera: Option<usize> = None;
    let mut i: usize = 0;
    while i < is_camera.len()
        invariant
            i <= is_camera@.len(),
            match camera {
                Some(c) => c < i && is_camera@[c as int] && forall|j: int| c < j < i ==> !#[trigger] is_camera@[j],
                None => forall|j: int| 0 <= j < i ==> !#[trigger] is_camera@[j],
            },
        decreases is_camera.len() - i,
    {
        if is_camera[i] {
            camera = Some(i);
        }
        i = i + 1;
    }
    match camera {
        Some(c) => FocusChoice::GoToCamera(c),
        None => if is_camera.len() > 0 {
            FocusChoice::Frame
        } else {
            FocusChoice::Stay
        },
    }
}

/// A hexadecimal digit.
pub open spec fn is_hex(c: char) -> bool {
    ('0' <= c && c <= '9') || ('a' <= c && c <= 'f') || ('A' <= c && c <= 'F')
}

/// The value of a hexadecimal digit.
pub open spec fn hex_value(c: char) -> nat {
    if '0' <= c && c <= '9' {
        (c as int - '0' as int) as nat
    } else if 'a' <= c && c <= 'f' {
        (c as int - 'a' as int + 10) as nat
    } else {
        (c as int - 'A' as int + 10) as nat
    }
}

/// The value of a run of hexadecimal digits.
pub open spec fn hex_number(s: Seq<char>) -> nat
    decreases s.len(),
{
    if s.len() == 0 {
        0
    } else {
        hex_number(s.drop_last()) * 16 + hex_value(s.last())
    }
}

/// The identifier part of a binary-ECS folder name is sixteen characters
/// read as a hexadecimal number: sixteen hex digits, or a `+` and fifteen.
pub open spec fn hex_id(s: Seq<char>) -> Option<nat> {
    if s.len() != 16 {
        None
    } else if forall|i: int| 0 <= i < 16 ==> is_hex(#[trigger] s[i]) {
        Some(hex_number(s))
    } else if s[0] == '+' && forall|i: int| 1 <= i < 16 ==> is_hex(#[trigger] s[i]) {
        Some(hex_number(s.drop_first()))
    } else {
        None
    }
}

/// The last position of `c` in `s`, if any.
pub open spec fn last_index_of(s: Seq<char>, c: char) -> Option<int> {
    if exists|i: int| 0 <= i < s.len() && s[i] == c {
        Some(choose|i: int| 0 <= i < s.len() && s[i] == c && forall|j: int| i < j < s.len() ==> s[j] != c)
    } else {
        None
    }
}

/// A binary-ECS instance folder is named `__bin_{class}_{id}`: the class
/// runs to the last `_`, and the id is read as [`hex_id`].
pub open spec fn spec_synthetic_folder(folder: Seq<char>) -> Option<(nat, Seq<char>)> {
    let p = "__bin_"@;
    if folder.len() < p.len() || folder.subrange(0, p.len() as int) != p {
        None
    } else {
        let rest = folder.subrange(p.len() as int, folder.len() as int);
        match last_index_of(rest, '_') {
            None => None,
            Some(k) => match hex_id(rest.subrange(k + 1, rest.len() as int)) {
                None => None,
                Some(id) => Some((id, rest.subrange(0, k))),
            },
        }
    }
}

/// Sixteen to the power `n`.
pub open spec fn pow16(n: nat) -> nat
    decreases n,
{
    if n == 0 {
        1
    } else {
        16 * pow16((n - 1) as nat)
    }
}

proof fn lemma_pow16_monotone(a: nat, b: nat)
    requires
        a <= b,
    ensures
        1 <= pow16(a) <= pow16(b),
    decreases b,
{
    if b > 0 {
        if a < b {
            lemma_pow16_monotone(a, (b - 1) as nat);
        } else {
            lemma_pow16_monotone((a - 1) as nat, (b - 1) as nat);
        }
    }
}

proof fn lemma_hex_number_bound(s: Seq<char>)
    requires
        forall|i: int| 0 <= i < s.len() ==> is_hex(#[trigger] s[i]),
    ensures
        hex_number(s) < pow16(s.len()),
    decreases s.len(),
{
    if s.len() > 0 {
        lemma_hex_number_bound(s.drop_last());
        assert(hex_value(s.last()) < 16);
        let p = pow16((s.len() - 1) as nat);
        assert(hex_number(s.drop_last()) * 16 + hex_value(s.last()) < p * 16) by (nonlinear_arith)
            requires
                hex_number(s.drop_last()) < p,
                hex_value(s.last()) < 16,
        ;
    }
}

/// Read a run of hexadecimal digits of at most sixteen characters.
fn read_hex(v: &Vec<char>, from: usize) -> (r: u64)
    requires
        from <= v@.len(),
        v@.len() - from <= 16,
        forall|i: int| from <= i < v@.len() ==> is_hex(#[trigger] v@[i]),
    ensures
        r as nat == hex_number(v@.subrange(from as int, v@.len() as int)),
{
    let mut acc: u64 = 0;
    let mut i: usize = from;
    while i < v.len()
        invariant
            from <= i <= v@.len(),
            v@.len() - from <= 16,
            forall|j: int| from <= j < v@.len() ==> is_hex(#[trigger] v@[j]),
            acc as nat == hex_number(v@.subrange(from as int, i as int)),
        decreases v.len() - i,
    {
        let c = v[i];
        let d: u64 = if '0' <= c && c <= '9' {
            (c as u64) - ('0' as u64)
        } else if 'a' <= c && c <= 'f' {
            (c as u64) - ('a' as u64) + 10
        } else {
            (c as u64) - ('A' as u64) + 10
        };
        proof {
            let s = v@.subrange(from as int, i + 1);
            assert(s.drop_last() =~= v@.subrange(from as int, i as int));
            assert(forall|j: int| 0 <= j < s.len() ==> is_hex(#[trigger] s[j]));
            lemma_hex_number_bound(s);
            assert(s.len() <= 16);
            lemma_pow16_monotone(s.len(), 16);
            assert(pow16(16) == 0x1_0000_0000_0000_0000) by {
                reveal_with_fuel(pow16, 17);
            }
            assert(hex_number(s) == acc * 16 + d);
        }
        acc = acc * 16 + d;
        i = i + 1;
    }
    acc
}

/// Parse a binary-ECS instance folder name `__bin_{class}_{id}` into its
/// stored id and class; `None` for any other folder.
pub fn parse_synthetic_bin_folder(folder: &str) -> (r: Option<(u64, String)>)
    ensures
        match r {
            Some((id, class)) => spec_synthetic_folder(folder@) == Some((id as nat, class@)),
            None => spec_synthetic_folder(folder@) is None,
        },
{
    let v = chars_of(folder);
    proof {
        reveal_strlit("__bin_");
    }
    let p = chars_of("__bin_");
    if v.len() < p.len() {
        return None;
    }
    let mut i: usize = 0;
    while i < p.len()
        invariant
            i <= p@.len(),
            p@.len() <= v@.len(),
            v@ == folder@,
            p@ == "__bin_"@,
            forall|j: int| 0 <= j < i ==> v@[j] == p@[j],
        decreases p.len() - i,
    {
        if v[i] != p[i] {
            proof {
                assert(v@.subrange(0, p@.len() as int)[i as int] != p@[i as int]);
                assert(v@.subrange(0, p@.len() as int) != p@);
            }
            return None;
        }
        i = i + 1;
    }
    proof {
        assert(v@.subrange(0, p@.len() as int) =~= p@);
    }
    let start = p.len();
    let ghost rest = v@.subrange(start as int, v@.len() as int);
    let mut last: Option<usize> = None;
    let mut q: usize = start;
    while q < v.len()
        invariant
            start <= q <= v@.len(),
            match last {
                Some(u) => start <= u < q && v@[u as int] == '_' && forall|j: int| u < j < q ==> #[trigger] v@[j] != '_',
                None => forall|j: int| start <= j < q ==> #[trigger] v@[j] != '_',
            },
        decreases v.len() - q,
    {
        if v[q] == '_' {
            last = Some(q);
        }
        q = q + 1;
    }
    let under = match last {
        None => {
            proof {
                assert(!exists|j: int| 0 <= j < rest.len() && rest[j] == '_') by {
                    assert forall|j: int| 0 <= j < rest.len() implies rest[j] != '_' by {
                        assert(rest[j] == v@[start + j]);
                    }
                }
            }
            return None;
        },
        Some(u) => u,
    };
    proof {
        let kk = (under - start) as int;
        assert(rest[kk] == '_');
        assert(forall|j: int| kk < j < rest.len() ==> rest[j] != '_') by {
            assert forall|j: int| kk < j < rest.len() implies rest[j] != '_' by {
                assert(rest[j] == v@[start + j]);
            }
        }
        assert(exists|j: int| 0 <= j < rest.len() && rest[j] == '_');
        let w = last_index_of(rest, '_')->0;
        assert(w == kk) by {
            if w < kk {
                assert(rest[kk] != '_');
            } else if w > kk {
                assert(rest[w] != '_');
            }
        }
    }
    let id_len = v.len() - (under + 1);
    if id_len != 16 {
        return None;
    }
    let ghost id_part = v@.subrange(under + 1, v@.len() as int);
    proof {
        assert(rest.subrange((under - start) as int + 1, rest.len() as int) =~= id_part);
    }
    let mut all_hex = true;
    let mut j: usize = under + 1;
    while j < v.len()
        invariant
            under + 1 <= j <= v@.len(),
            all_hex == forall|m: int| under + 1 <= m < j ==> is_hex(#[trigger] v@[m]),
        decreases v.len() - j,
    {
        let c = v[j];
        if !(('0' <= c && c <= '9') || ('a' <= c && c <= 'f') || ('A' <= c && c <= 'F')) {
            all_hex = false;
        }
        j = j + 1;
    }
    let id: u64;
    if all_hex {
        proof {
            assert forall|m: int| 0 <= m < 16 implies is_hex(#[trigger] id_part[m]) by {
                assert(id_part[m] == v@[under + 1 + m]);
            }
        }
        id = read_hex(&v, under + 1);
    } else if v[under + 1] == '+' {
        let mut rest_hex = true;
        let mut m: usize = under + 2;
        while m < v.len()
            invariant
                under + 2 <= m <= v@.len(),
                rest_hex == forall|q: int| under + 2 <= q < m ==> is_hex(#[trigger] v@[q]),
            decreases v.len() - m,
        {
            let c = v[m];
            if !(('0' <= c && c <= '9') || ('a' <= c && c <= 'f') || ('A' <= c && c <= 'F')) {
                rest_hex = false;
            }
            m = m + 1;
        }
        proof {
            assert(!is_hex('+'));
            let q = choose|q: int| under + 1 <= q < v@.len() && !is_hex(#[trigger] v@[q]);
            assert(!(forall|i: int| 0 <= i < 16 ==> is_hex(#[trigger] id_part[i]))) by {
                assert(!is_hex(id_part[q - under - 1]));
            }
        }
        if !rest_hex {
            proof {
                let q = choose|q: int| under + 2 <= q < v@.len() && !is_hex(#[trigger] v@[q]);
                assert(!is_hex(id_part[q - under - 1]));
            }
            return None;
        }
        proof {
            assert(id_part.drop_first() =~= v@.subrange(under + 2, v@.len() as int));
            assert forall|i: int| 1 <= i < 16 implies is_hex(#[trigger] id_part[i]) by {
                assert(id_part[i] == v@[under + 1 + i]);
            }
        }
        id = read_hex(&v, under + 2);
    } else {
        proof {
            let q = choose|q: int| under + 1 <= q < v@.len() && !is_hex(#[trigger] v@[q]);
            assert(!is_hex(id_part[q - under - 1]));
            assert(id_part[0] != '+');
        }
        return None;
    }
    let mut class = String::new();
    let mut c: usize = start;
    while c < under
        invariant
            start <= c <= under,
            under < v@.len(),
            class@ == v@.subrange(start as int, c as int),
        decreases under - c,
    {
        crate::text::push_char(&mut class, v[c]);
        c = c + 1;
    }
    proof {
        assert(rest.subrange(0, (under - start) as int) =~= class@);
    }
    Some((id, class))
}

// ============================================================================
// Delete
// ============================================================================

/// What Delete does with one selected entity.
#[derive(Debug, Clone, PartialEq, Eq)]
pub enum DeleteStep {
    /// Its file is a protected core service (Workspace, Lighting, ...): it
    /// is kept, and counted for the closing notice.
    SkipProtectedService,
    /// A binary-ECS entity: its stored core (by id and class) is purged and
    /// it is despawned; it has no folder to trash.
    PurgeBinary(u64, String),
    /// The Workshop folder under SoulService, the chat history root: kept.
    SkipWorkshop,
    /// Its instance file is moved to the trash: the folder holding it when
    /// the file is a folder's `_instance.toml`, else the file itself.
    Trash { folder: bool },
    /// An entity with no instance file: only despawned.
    Despawn,
}

/// `x` lowercases to the lowercase ASCII character `t`, as `to_lowercase`
/// does: `t` itself, its uppercase letter, or the Kelvin sign for `k`.
pub open spec fn lowers_to(x: char, t: char) -> bool {
    ||| x == t
    ||| ('a' <= t && t <= 'z' && x as int == t as int - 32)
    ||| (t == 'k' && x == '\u{212A}')
}

/// `s.to_lowercase()` is `target`, for a target of lowercase ASCII.
pub open spec fn lowercases_to(s: Seq<char>, target: Seq<char>) -> bool {
    s.len() == target.len() && forall|i: int| 0 <= i < s.len() ==> lowers_to(#[trigger] s[i], target[i])
}

fn lowers_to_exec(x: char, t: char) -> (r: bool)
    ensures
        r == lowers_to(x, t),
{
    x == t || ('a' <= t && t <= 'z' && (x as u32) + 32 == (t as u32)) || (t == 'k' && x == '\u{212A}')
}

/// Whether `s` lowercases to `target` (lowercase ASCII).
pub fn lowercases_to_exec(s: &str, target: &str) -> (r: bool)
    ensures
        r == lowercases_to(s@, target@),
{
    let a = chars_of(s);
    let b = chars_of(target);
    if a.len() != b.len() {
        return false;
    }
    let mut i: usize = 0;
    while i < a.len()
        invariant
            i <= a@.len(),
            a@ == s@,
            b@ == target@,
            a@.len() == b@.len(),
            forall|j: int| 0 <= j < i ==> lowers_to(#[trigger] a@[j], b@[j]),
        decreases a.len() - i,
    {
        if !lowers_to_exec(a[i], b[i]) {
            return false;
        }
        i = i + 1;
    }
    true
}

/// The path's last three components are `SoulService/Workshop/_instance.toml`,
/// in any letter case: the Workshop root.
pub open spec fn spec_is_workshop_root(components: Seq<Seq<char>>) -> bool {
    let n = components.len();
    n >= 3 && lowercases_to(components[n - 3], "soulservice"@) && lowercases_to(components[n - 2], "workshop"@)
        && lowercases_to(components[n - 1], "_instance.toml"@)
}

pub open spec fn components_view(v: Seq<String>) -> Seq<Seq<char>> {
    v.map_values(|s: String| s@)
}

/// Whether an instance file, by its path's components, is the Workshop root.
pub fn is_workshop_root(components: &Vec<String>) -> (r: bool)
    ensures
        r == spec_is_workshop_root(components_view(components@)),
{
    let n = components.len();
    n >= 3 && lowercases_to_exec(components[n - 3].as_str(), "soulservice")
        && lowercases_to_exec(components[n - 2].as_str(), "workshop")
        && lowercases_to_exec(components[n - 1].as_str(), "_instance.toml")
}

/// The binary-ECS id and class a path names: its parent folder is
/// `__bin_{class}_{id}`.
pub open spec fn spec_synthetic_path(components: Seq<Seq<char>>) -> Option<(nat, Seq<char>)> {
    if components.len() >= 2 {
        spec_synthetic_folder(components[components.len() - 2])
    } else {
        None
    }
}

/// What Delete does with an entity: a protected service file is kept; an
/// entity with no instance file is only despawned; a binary-ECS path is
/// purged; the Workshop root is kept; any other instance file is trashed,
/// with its folder when it is a folder's `_instance.toml`.
pub open spec fn delete_step_is(protected_service: bool, instance_path: Option<Seq<Seq<char>>>, r: DeleteStep) -> bool {
    match r {
        DeleteStep::SkipProtectedService => protected_service,
        DeleteStep::Despawn => !protected_service && instance_path is None,
        DeleteStep::PurgeBinary(id, class) => !protected_service && (instance_path matches Some(cs)
            && spec_synthetic_path(cs) == Some((id as nat, class@))),
        DeleteStep::SkipWorkshop => !protected_service && (instance_path matches Some(cs)
            && spec_synthetic_path(cs) is None && spec_is_workshop_root(cs)),
        DeleteStep::Trash { folder } => !protected_service && (instance_path matches Some(cs)
            && spec_synthetic_path(cs) is None && !spec_is_workshop_root(cs)
            && folder == (cs.len() > 0 && cs.last() == "_instance.toml"@)),
    }
}

pub open spec fn path_view(p: Option<&Vec<String>>) -> Option<Seq<Seq<char>>> {
    match p {
        Some(v) => Some(components_view(v@)),
        None => None,
    }
}

/// What Delete does with one selected entity, given whether its file is a
/// protected service and its instance file's path components, if it has
/// one.
pub fn delete_step(protected_service: bool, instance_path: Option<&Vec<String>>) -> (r: DeleteStep)
    ensures
        delete_step_is(protected_service, path_view(instance_path), r),
{
    if protected_service {
        return DeleteStep::SkipProtectedService;
    }
    let cs = match instance_path {
        None => return DeleteStep::Despawn,
        Some(cs) => cs,
    };
    let n = cs.len();
    let ghost v = components_view(cs@);
    if n >= 2 {
        proof {
            assert(v[n - 2] == cs@[n - 2]@);
        }
        match parse_synthetic_bin_folder(cs[n - 2].as_str()) {
            Some((id, class)) => return DeleteStep::PurgeBinary(id, class),
            None => {},
        }
    }
    if is_workshop_root(cs) {
        return DeleteStep::SkipWorkshop;
    }
    let folder = n > 0 && str_eq(cs[n - 1].as_str(), "_instance.toml");
    proof {
        if n > 0 {
            assert(v.last() == cs@[n - 1]@);
        }
    }
    DeleteStep::Trash { folder }
}

/// The first of a path's ancestors, nearest first, that is a Space root.
pub open spec fn spec_first_space_root(ancestors: Seq<Seq<char>>, is_space_root: Seq<bool>) -> Option<Seq<char>>
    decreases ancestors.len(),
{
    if ancestors.len() == 0 || is_space_root.len() == 0 {
        None
    } else if is_space_root[0] {
        Some(ancestors[0])
    } else {
        spec_first_space_root(ancestors.drop_first(), is_space_root.drop_first())
    }
}

/// The Space root that owns a path: the nearest ancestor that is one.
pub fn first_space_root(ancestors: &Vec<String>, is_space_root: &Vec<bool>) -> (r: Option<String>)
    ensures
        match r {
            Some(p) => spec_first_space_root(components_view(ancestors@), is_space_root@) == Some(p@),
            None => spec_first_space_root(components_view(ancestors@), is_space_root@) is None,
        },
{
    let ghost a = components_view(ancestors@);
    proof {
        assert(a.subrange(0, a.len() as int) =~= a);
        assert(is_space_root@.subrange(0, is_space_root@.len() as int) =~= is_space_root@);
    }
    let mut i: usize = 0;
    while i < ancestors.len() && i < is_space_root.len()
        invariant
            i <= ancestors@.len(),
            i <= is_space_root@.len(),
            a == components_view(ancestors@),
            spec_first_space_root(a, is_space_root@)
                == spec_first_space_root(a.subrange(i as int, a.len() as int), is_space_root@.subrange(i as int, is_space_root@.len() as int)),
        decreases ancestors.len() - i,
    {
        let ghost (x, y) = (a.subrange(i as int, a.len() as int), is_space_root@.subrange(i as int, is_space_root@.len() as int));
        if is_space_root[i] {
            assert(x[0] == ancestors@[i as int]@);
            return Some(ancestors[i].clone());
        }
        proof {
            assert(x.drop_first() =~= a.subrange(i + 1, a.len() as int));
            assert(y.drop_first() =~= is_space_root@.subrange(i + 1, is_space_root@.len() as int));
        }
        i = i + 1;
    }
    None
}

/// Where the trash goes: `<base>/.eustress/trash`, the base being the Space
/// root that owns the deleted item, else the grandparent of its file, else
/// the working directory.
pub open spec fn spec_trash_base(space_root: Option<Seq<char>>, anchor_parent: Option<Seq<char>>) -> Seq<char> {
    match space_root {
        Some(r) => r,
        None => match anchor_parent {
            Some(p) => p,
            None => "."@,
        },
    }
}

/// The folder under which `.eustress/trash` is made.
pub fn trash_base(space_root: Option<String>, anchor_parent: Option<String>) -> (r: String)
    ensures
        r@ == spec_trash_base(opt_view(space_root), opt_view(anchor_parent)),
{
    match space_root {
        Some(r) => r,
        None => match anchor_parent {
            Some(p) => p,
            None => ".".to_owned(),
        },
    }
}

pub open spec fn opt_view(s: Option<String>) -> Option<Seq<char>> {
    match s {
        Some(s) => Some(s@),
        None => None,
    }
}

/// A hexadecimal digit, lower case.
pub open spec fn hex_char(d: nat) -> char {
    if d < 10 { digit_char(d) }
    else if d == 10 { 'a' }
    else if d == 11 { 'b' }
    else if d == 12 { 'c' }
    else if d == 13 { 'd' }
    else if d == 14 { 'e' }
    else { 'f' }
}

/// `n` as `{:x}` formats it.
pub open spec fn lower_hex(n: nat) -> Seq<char>
    decreases n,
{
    if n < 16 {
        seq![hex_char(n)]
    } else {
        lower_hex(n / 16).push(hex_char(n % 16))
    }
}

fn hex_char_exec(d: u64) -> (r: char)
    requires
        d < 16,
    ensures
        r == hex_char(d as nat),
{
    if d == 0 { '0' }
    else if d == 1 { '1' }
    else if d == 2 { '2' }
    else if d == 3 { '3' }
    else if d == 4 { '4' }
    else if d == 5 { '5' }
    else if d == 6 { '6' }
    else if d == 7 { '7' }
    else if d == 8 { '8' }
    else if d == 9 { '9' }
    else if d == 10 { 'a' }
    else if d == 11 { 'b' }
    else if d == 12 { 'c' }
    else if d == 13 { 'd' }
    else if d == 14 { 'e' }
    else { 'f' }
}

fn push_lower_hex(out: &mut String, n: u64)
    ensures
        final(out)@ == old(out)@ + lower_hex(n as nat),
    decreases n,
{
    if n >= 16 {
        push_lower_hex(out, n / 16);
    }
    let ghost mid = out@;
    push_char(out, hex_char_exec(n % 16));
    proof {
        if n >= 16 {
            assert(mid + seq![hex_char((n % 16) as nat)] =~= old(out)@ + lower_hex(n as nat));
        } else {
            assert(out@ =~= old(out)@ + lower_hex(n as nat));
        }
    }
}

/// The name a trashed item takes: its own name (`entity` when it has
/// none), or, when that name is already in the trash, the name, a hyphen
/// and the millisecond timestamp in lower-case hexadecimal, so no trashed
/// item ever replaces another.
pub open spec fn spec_trash_name(stem: Option<Seq<char>>, taken: bool, ts_ms: u64) -> Seq<char> {
    let s = match stem {
        Some(s) => s,
        None => "entity"@,
    };
    if taken {
        s + "-"@ + lower_hex(ts_ms as nat)
    } else {
        s
    }
}

/// The trash entry's name.
pub fn trash_name(stem: Option<&str>, taken: bool, ts_ms: u64) -> (r: String)
    ensures
        r@ == spec_trash_name(
            match stem { Some(s) => Some(s@), None => None },
            taken,
            ts_ms,
        ),
{
    let mut out = match stem {
        Some(s) => s.to_owned(),
        None => "entity".to_owned(),
    };
    if taken {
        push_str(&mut out, "-");
        push_lower_hex(&mut out, ts_ms);
    }
    out
}

} // verus!
