//! What a click in the viewport does to the selection, once the hit test
//! has run: whether a gizmo drag keeps the selection, which entity (the
//! part, or the model it belongs to) is picked, how Ctrl/Shift toggle
//! membership, what a miss clears, when a second click is a double click,
//! and how lasso and paint selections apply. Also the selection id of an
//! entity, and which clicks reach selection at all.

use vstd::prelude::*;
use crate::text::{push_str, decimal, decimal_string};

verus! {

/// The selection id of an entity: its index, `v`, its generation.
pub open spec fn spec_part_id(index: u32, generation: u32) -> Seq<char> {
    decimal(index as nat) + "v"@ + decimal(generation as nat)
}

/// The selection id of an entity, e.g. `42v1`.
pub fn make_part_id(index: u32, generation: u32) -> (r: String)
    ensures
        r@ == spec_part_id(index, generation),
{
    let mut s = decimal_string(index as u64);
    push_str(&mut s, "v");
    let g = decimal_string(generation as u64);
    push_str(&mut s, g.as_str());
    s
}

/// Whether a gizmo owns the drag: some tool is active and dragging one of
/// its handles.
pub fn tool_is_dragging(
    move_active: bool,
    move_dragging: bool,
    scale_active: bool,
    scale_dragging: bool,
    rotate_active: bool,
    rotate_dragging: bool,
) -> (r: bool)
    ensures
        r == ((move_active && move_dragging) || (scale_active && scale_dragging) || (rotate_active && rotate_dragging)),
{
    (move_active && move_dragging) || (scale_active && scale_dragging) || (rotate_active && rotate_dragging)
}

/// What a click picks: the hit part itself, or the model it belongs to.
#[derive(Debug, Clone, Copy, PartialEq, Eq, Structural)]
pub enum Pick<E> {
    Part(E),
    Model(E),
}

/// With Alt held the part itself is picked; otherwise the model it belongs
/// to, when it belongs to one.
pub open spec fn spec_pick<E>(alt: bool, hit: E, parent_model: Option<E>) -> Pick<E> {
    if alt {
        Pick::Part(hit)
    } else {
        match parent_model {
            Some(m) => Pick::Model(m),
            None => Pick::Part(hit),
        }
    }
}

/// What a click picks.
pub fn pick_target<E: Copy>(alt: bool, hit: E, parent_model: Option<E>) -> (r: Pick<E>)
    ensures
        r == spec_pick(alt, hit, parent_model),
{
    if alt {
        Pick::Part(hit)
    } else {
        match parent_model {
            Some(m) => Pick::Model(m),
            None => Pick::Part(hit),
        }
    }
}

/// What a click does to the selection.
#[derive(Debug, Clone, Copy, PartialEq, Eq, Structural)]
pub enum SelectionEdit {
    /// Leave the selection as it is.
    Keep,
    /// Select the pick alone (and scroll the Explorer to it).
    SelectOnly,
    /// Add the pick.
    Add,
    /// Remove the pick.
    Remove,
    /// Clear the selection.
    Clear,
}

/// A click that hit something: a gizmo drag keeps the selection; Ctrl or
/// Shift toggles the pick's membership; otherwise the pick alone is
/// selected. A click that hit nothing: a gizmo drag, or a click on a tool
/// handle, keeps the selection; otherwise it is cleared.
pub open spec fn spec_selection_edit(
    hit: bool,
    tool_dragging: bool,
    multi_select: bool,
    pick_selected: bool,
    on_tool_handle: bool,
) -> SelectionEdit {
    if tool_dragging {
        SelectionEdit::Keep
    } else if hit {
        if multi_select {
            if pick_selected { SelectionEdit::Remove } else { SelectionEdit::Add }
        } else {
            SelectionEdit::SelectOnly
        }
    } else if on_tool_handle {
        SelectionEdit::Keep
    } else {
        SelectionEdit::Clear
    }
}

/// What a click does to the selection.
pub fn selection_edit(
    hit: bool,
    tool_dragging: bool,
    multi_select: bool,
    pick_selected: bool,
    on_tool_handle: bool,
) -> (r: SelectionEdit)
    ensures
        r == spec_selection_edit(hit, tool_dragging, multi_select, pick_selected, on_tool_handle),
{
    if tool_dragging {
        SelectionEdit::Keep
    } else if hit {
        if multi_select {
            if pick_selected {
                SelectionEdit::Remove
            } else {
                SelectionEdit::Add
            }
        } else {
            SelectionEdit::SelectOnly
        }
    } else if on_tool_handle {
        SelectionEdit::Keep
    } else {
        SelectionEdit::Clear
    }
}

/// Two Ctrl/Shift clicks on one pick leave its membership as it was.
pub proof fn law_multi_click_toggles(sel: bool)
    ensures
        spec_selection_edit(true, false, true, sel, false) == if sel { SelectionEdit::Remove } else { SelectionEdit::Add },
        spec_selection_edit(true, false, true, !sel, false) == if sel { SelectionEdit::Add } else { SelectionEdit::Remove },
{
}

/// The longest gap between two clicks on one part that still makes a
/// double click, in milliseconds.
pub const DOUBLE_CLICK_MS: u64 = 400;

/// Whether a click is a double click: the last click was on the same
/// entity less than 400 ms ago.
pub fn is_double_click(since_last_ms: Option<u64>, last_entity: Option<u64>, hit: u64) -> (r: bool)
    ensures
        r == (since_last_ms matches Some(ms) && ms < DOUBLE_CLICK_MS && last_entity == Some(hit)),
{
    match since_last_ms {
        Some(ms) => ms < DOUBLE_CLICK_MS && last_entity == Some(hit),
        None => false,
    }
}

/// How lasso and paint selections apply.
#[derive(Debug, Clone, Copy, PartialEq, Eq, Structural)]
pub enum SelectMode {
    /// Clear the selection first.
    Replace,
    /// Add to the selection.
    Add,
    /// Toggle membership; applied as Add.
    Toggle,
}

/// What a lasso or paint gesture does with its hits.
#[derive(Debug, Clone, Copy, PartialEq, Eq, Structural)]
pub enum GestureApply {
    /// Nothing changes.
    Nothing,
    /// The selection becomes exactly the hits (possibly none).
    SetTo,
    /// The hits are added.
    AddHits,
}

/// A lasso always applies: Replace sets the selection to the hits (even
/// none), Add and Toggle add them. A paint stroke with no hits changes
/// nothing; with hits it applies like a lasso.
pub fn gesture_apply(mode: SelectMode, hits_empty: bool, is_paint: bool) -> (r: GestureApply)
    ensures
        r == if is_paint && hits_empty {
            GestureApply::Nothing
        } else if mode == SelectMode::Replace {
            GestureApply::SetTo
        } else {
            GestureApply::AddHits
        },
{
    if is_paint && hits_empty {
        return GestureApply::Nothing;
    }
    match mode {
        SelectMode::Replace => GestureApply::SetTo,
        _ => GestureApply::AddHits,
    }
}

/// The selection id of a part: its own non-empty id from its part marker,
/// else, for an entity that is an instance, the entity's id; an entity
/// with neither is not selectable.
pub open spec fn spec_hit_part_id(
    part_entity_id: Option<Seq<char>>,
    marker_id: Option<Seq<char>>,
    is_instance: bool,
    entity_id: Seq<char>,
) -> Option<Seq<char>> {
    match part_entity_id {
        Some(p) => if p.len() > 0 { Some(p) } else if is_instance { Some(entity_id) } else { None },
        None => match marker_id {
            Some(m) => if m.len() > 0 { Some(m) } else if is_instance { Some(entity_id) } else { None },
            None => if is_instance { Some(entity_id) } else { None },
        },
    }
}

/// The selection id of a part the click may hit.
pub fn hit_part_id(part_entity_id: Option<&str>, marker_id: Option<&str>, is_instance: bool, entity_id: &str) -> (r: Option<String>)
    ensures
        match r {
            Some(s) => spec_hit_part_id(
                match part_entity_id { Some(p) => Some(p@), None => None },
                match marker_id { Some(m) => Some(m@), None => None },
                is_instance,
                entity_id@,
            ) == Some(s@),
            None => spec_hit_part_id(
                match part_entity_id { Some(p) => Some(p@), None => None },
                match marker_id { Some(m) => Some(m@), None => None },
                is_instance,
                entity_id@,
            ) is None,
        },
{
    let chosen: Option<&str> = match part_entity_id {
        Some(p) => if p.unicode_len() > 0 {
            Some(p)
        } else if is_instance {
            Some(entity_id)
        } else {
            None
        },
        None => match marker_id {
            Some(m) => if m.unicode_len() > 0 {
                Some(m)
            } else if is_instance {
                Some(entity_id)
            } else {
                None
            },
            None => if is_instance {
                Some(entity_id)
            } else {
                None
            },
        },
    };
    match chosen {
        Some(c) => {
            let mut s = String::new();
            push_str(&mut s, c);
            Some(s)
        },
        None => None,
    }
}

/// Why a click does not reach selection, or that it does.
#[derive(Debug, Clone, Copy, PartialEq, Eq, Structural)]
pub enum ClickGate {
    /// No selection manager is running.
    NoSelectionManager,
    /// The left button was not pressed this frame.
    NotLeftClick,
    /// The UI panels have the pointer.
    UiFocus,
    /// The click is over a ScreenGui element.
    OverGui,
    /// There is no primary window.
    NoWindow,
    /// The cursor is not over the window.
    NoCursor,
    /// The cursor is outside the 3D viewport.
    OutsideViewport,
    /// There is no main camera.
    NoCamera,
    /// The cursor gives no ray.
    NoRay,
    /// The click is raycast; Ctrl or Shift adds to the selection.
    Proceed { multi_select: bool },
}

/// What the viewport knows when a frame starts.
pub struct ClickFacts {
    pub has_selection_manager: bool,
    pub left_just_pressed: bool,
    /// The UI focus, when it is tracked: whether a panel has focus and
    /// whether the click hit a ScreenGui element.
    pub ui_focus: Option<(bool, bool)>,
    pub has_window: bool,
    pub has_cursor: bool,
    /// Whether the cursor is inside the viewport, when its bounds are
    /// known (unknown bounds block nothing).
    pub inside_viewport: Option<bool>,
    pub shift: bool,
    pub ctrl: bool,
    pub has_camera: bool,
    pub has_ray: bool,
}

/// The checks a click passes before any raycast, in order: a selection
/// manager, a left press, no panel focus, no ScreenGui hit, a window, a
/// cursor, inside the viewport, a main camera, a ray.
pub open spec fn spec_click_gate(f: ClickFacts) -> ClickGate {
    if !f.has_selection_manager {
        ClickGate::NoSelectionManager
    } else if !f.left_just_pressed {
        ClickGate::NotLeftClick
    } else if f.ui_focus matches Some((focus, _)) && focus {
        ClickGate::UiFocus
    } else if f.ui_focus matches Some((_, gui)) && gui {
        ClickGate::OverGui
    } else if !f.has_window {
        ClickGate::NoWindow
    } else if !f.has_cursor {
        ClickGate::NoCursor
    } else if f.inside_viewport == Some(false) {
        ClickGate::OutsideViewport
    } else if !f.has_camera {
        ClickGate::NoCamera
    } else if !f.has_ray {
        ClickGate::NoRay
    } else {
        ClickGate::Proceed { multi_select: f.shift || f.ctrl }
    }
}

/// Whether, and how, a click goes on to selection.
pub fn click_gate(f: &ClickFacts) -> (r: ClickGate)
    ensures
        r == spec_click_gate(*f),
{
    if !f.has_selection_manager {
        return ClickGate::NoSelectionManager;
    }
    if !f.left_just_pressed {
        return ClickGate::NotLeftClick;
    }
    match f.ui_focus {
        Some((focus, gui)) => {
            if focus {
                return ClickGate::UiFocus;
            }
            if gui {
                return ClickGate::OverGui;
            }
        },
        None => {},
    }
    if !f.has_window {
        return ClickGate::NoWindow;
    }
    if !f.has_cursor {
        return ClickGate::NoCursor;
    }
    match f.inside_viewport {
        Some(false) => return ClickGate::OutsideViewport,
        _ => {},
    }
    if !f.has_camera {
        return ClickGate::NoCamera;
    }
    if !f.has_ray {
        return ClickGate::NoRay;
    }
    ClickGate::Proceed { multi_select: f.shift || f.ctrl }
}

} // verus!
