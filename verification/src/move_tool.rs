//! The world axes the Move, Rotate and Scale gizmos work along, the names
//! of the Move gizmo's arrow entities, and the Move tool's drag gestures:
//! which handle or part a press grabs, what each held frame moves, and
//! how Escape, release and a typed distance end the drag. The geometry
//! (hit tests, drag planes, snapping) is the caller's; the gestures see
//! its outcomes.

use vstd::prelude::*;
use crate::text::push_str;
use crate::modal_tool::MouseButtons;

verus! {

/// World axis shared by the Move, Rotate and Scale tools.
#[derive(Copy, Clone, Debug, PartialEq, Eq, Hash, Structural)]
pub enum Axis3d {
    X,
    Y,
    Z,
}

/// The axis's letter.
pub open spec fn spec_axis_letter(a: Axis3d) -> Seq<char> {
    match a {
        Axis3d::X => "X"@,
        Axis3d::Y => "Y"@,
        Axis3d::Z => "Z"@,
    }
}

impl Axis3d {
    /// The axis's letter: `X`, `Y` or `Z`.
    pub fn letter(self) -> (r: &'static str)
        ensures
            r@ == spec_axis_letter(self),
    {
        match self {
            Axis3d::X => "X",
            Axis3d::Y => "Y",
            Axis3d::Z => "Z",
        }
    }
}

/// The name of a Move gizmo arrow part: `MoveArrow.`, the sign (`+` for a
/// positive `sign`, `-` otherwise), the axis letter, `.` and the part kind.
pub open spec fn spec_arrow_name(kind: Seq<char>, axis: Axis3d, sign: i8) -> Seq<char> {
    "MoveArrow."@ + (if sign > 0 { "+"@ } else { "-"@ }) + spec_axis_letter(axis) + "."@ + kind
}

/// The name of a Move gizmo arrow part, e.g. `MoveArrow.+X.shaft`.
pub fn arrow_name(kind: &str, axis: Axis3d, sign: i8) -> (r: String)
    ensures
        r@ == spec_arrow_name(kind@, axis, sign),
{
    let mut s = String::new();
    push_str(&mut s, "MoveArrow.");
    if sign > 0 {
        push_str(&mut s, "+");
    } else {
        push_str(&mut s, "-");
    }
    push_str(&mut s, axis.letter());
    push_str(&mut s, ".");
    push_str(&mut s, kind);
    s
}

/// The Move tool's gesture state. The positions and rotations recorded at
/// drag start are the caller's; `has_initials` says whether they are held.
pub struct MoveDragState<E> {
    /// The axis handle being dragged.
    pub dragged_axis: Option<Axis3d>,
    /// The plane handle being dragged, by its normal axis.
    pub dragged_plane: Option<Axis3d>,
    /// True while a part's body is dragged.
    pub free_drag: bool,
    /// The part whose body was grabbed for a free drag.
    pub dragged_entity: Option<E>,
    /// The axis handle under the cursor, for highlighting.
    pub hovered_axis: Option<Axis3d>,
    /// The plane handle under the cursor.
    pub hovered_plane: Option<Axis3d>,
    /// Whether the selection's start-of-drag positions are recorded.
    pub has_initials: bool,
}

/// One frame as the caller measured it.
pub struct MoveFrame<E> {
    /// Escape went down this frame.
    pub escape: bool,
    /// The cursor is in the window.
    pub cursor_in_window: bool,
    /// The cursor is over the 3D viewport rather than a panel.
    pub in_viewport: bool,
    /// The viewport camera exists and the cursor's ray could be cast.
    pub has_ray: bool,
    /// Some part is selected.
    pub has_selection: bool,
    /// The plane handle under the cursor, by its normal axis.
    pub plane_hit: Option<Axis3d>,
    /// The axis handle under the cursor.
    pub axis_hit: Option<Axis3d>,
    /// The first selected part whose body the cursor's ray hits.
    pub body_hit: Option<E>,
    pub buttons: MouseButtons,
}

/// What the caller does this frame.
#[derive(Debug, Clone, Copy, PartialEq, Eq)]
pub enum MoveAction<E> {
    /// Nothing.
    Idle,
    /// Put every selected part back where the drag found it.
    Restore,
    /// Record every selected part's position and rotation and start a
    /// plane drag on the plane with this normal.
    StartPlane(Axis3d),
    /// Record the selection and start an axis drag.
    StartAxis(Axis3d),
    /// Record the selection and start a free drag led by this part.
    StartFree(E),
    /// Move the selection within the plane with this normal.
    DragPlane(Axis3d),
    /// Move the selection along this axis.
    DragAxis(Axis3d),
    /// Move the selection after the cursor over surfaces.
    DragFree,
    /// Record the moved parts for undo and write their transforms.
    Commit,
}

/// Whether a drag of any kind is live.
pub open spec fn move_dragging<E>(s: MoveDragState<E>) -> bool {
    s.dragged_axis is Some || s.dragged_plane is Some || s.free_drag
}

/// The state once a drag ends: no drag, no recorded positions; the hover
/// highlight stays.
pub open spec fn drag_ended<E>(s: MoveDragState<E>) -> MoveDragState<E> {
    MoveDragState { dragged_axis: None, dragged_plane: None, free_drag: false, dragged_entity: None, has_initials: false, ..s }
}

/// What a frame does with the Move tool: nothing while the tool is off;
/// Escape during a drag restores and ends it; without a cursor in the
/// window, a ray, or a selection the frame does nothing, nor when the
/// cursor is over a panel unless an axis or free drag is live. Otherwise,
/// when idle, the handle under the cursor is highlighted (a plane handle
/// before an axis handle), and during a drag nothing is. A press grabs a
/// plane handle, else an axis handle, else a selected part's body; holding
/// moves along the grabbed handle (plane first, then axis, then free);
/// release ends the drag, committing it when one was recorded.
pub open spec fn move_next<E>(s: MoveDragState<E>, active: bool, f: MoveFrame<E>) -> (MoveDragState<E>, MoveAction<E>) {
    if !active {
        (s, MoveAction::Idle)
    } else if f.escape && move_dragging(s) {
        (drag_ended(s), MoveAction::Restore)
    } else if !f.cursor_in_window || !f.has_ray || !f.has_selection
        || (s.dragged_axis is None && !s.free_drag && !f.in_viewport) {
        (s, MoveAction::Idle)
    } else {
        let s1 = if !move_dragging(s) {
            MoveDragState {
                hovered_plane: f.plane_hit,
                hovered_axis: if f.plane_hit is Some { None } else { f.axis_hit },
                ..s
            }
        } else {
            MoveDragState { hovered_plane: None, hovered_axis: None, ..s }
        };
        if f.buttons.just_pressed {
            match f.plane_hit {
                Some(n) => (
                    MoveDragState { dragged_plane: Some(n), dragged_axis: None, free_drag: false, has_initials: true, ..s1 },
                    MoveAction::StartPlane(n),
                ),
                None => match f.axis_hit {
                    Some(a) => (
                        MoveDragState { dragged_axis: Some(a), dragged_plane: None, free_drag: false, has_initials: true, ..s1 },
                        MoveAction::StartAxis(a),
                    ),
                    None => match f.body_hit {
                        Some(e) => (
                            MoveDragState { free_drag: true, dragged_axis: None, dragged_entity: Some(e), has_initials: true, ..s1 },
                            MoveAction::StartFree(e),
                        ),
                        None => (s1, MoveAction::Idle),
                    },
                },
            }
        } else if f.buttons.pressed {
            (
                s1,
                match s1.dragged_plane {
                    Some(n) => MoveAction::DragPlane(n),
                    None => match s1.dragged_axis {
                        Some(a) => MoveAction::DragAxis(a),
                        None => if s1.free_drag { MoveAction::DragFree } else { MoveAction::Idle },
                    },
                },
            )
        } else if f.buttons.just_released {
            (drag_ended(s1), if move_dragging(s1) && s1.has_initials { MoveAction::Commit } else { MoveAction::Idle })
        } else {
            (s1, MoveAction::Idle)
        }
    }
}

impl<E: Copy> MoveDragState<E> {
    /// No drag, no highlight.
    pub fn new() -> (r: Self)
        ensures
            !move_dragging(r),
            r.dragged_entity is None && r.hovered_axis is None && r.hovered_plane is None && !r.has_initials,
    {
        MoveDragState {
            dragged_axis: None,
            dragged_plane: None,
            free_drag: false,
            dragged_entity: None,
            hovered_axis: None,
            hovered_plane: None,
            has_initials: false,
        }
    }

    fn end_drag(&mut self)
        ensures
            *final(self) == drag_ended(*old(self)),
    {
        self.dragged_axis = None;
        self.dragged_plane = None;
        self.free_drag = false;
        self.dragged_entity = None;
        self.has_initials = false;
    }

    /// Whether a drag of any kind is live.
    pub fn is_dragging(&self) -> (r: bool)
        ensures
            r == move_dragging(*self),
    {
        self.dragged_axis.is_some() || self.dragged_plane.is_some() || self.free_drag
    }

    /// The per-frame gesture step of the Move tool; see [`move_next`].
    pub fn handle_move_interaction(&mut self, active: bool, f: MoveFrame<E>) -> (r: MoveAction<E>)
        ensures
            (*final(self), r) == move_next(*old(self), active, f),
    {
        if !active {
            return MoveAction::Idle;
        }
        if f.escape && self.is_dragging() {
            self.end_drag();
            return MoveAction::Restore;
        }
        if !f.cursor_in_window || !f.has_ray || !f.has_selection
            || (self.dragged_axis.is_none() && !self.free_drag && !f.in_viewport) {
            return MoveAction::Idle;
        }
        if !self.is_dragging() {
            self.hovered_plane = f.plane_hit;
            self.hovered_axis = if f.plane_hit.is_some() { None } else { f.axis_hit };
        } else {
            self.hovered_plane = None;
            self.hovered_axis = None;
        }
        if f.buttons.just_pressed {
            match f.plane_hit {
                Some(n) => {
                    self.dragged_plane = Some(n);
                    self.dragged_axis = None;
                    self.free_drag = false;
                    self.has_initials = true;
                    MoveAction::StartPlane(n)
                },
                None => match f.axis_hit {
                    Some(a) => {
                        self.dragged_axis = Some(a);
                        self.dragged_plane = None;
                        self.free_drag = false;
                        self.has_initials = true;
                        MoveAction::StartAxis(a)
                    },
                    None => match f.body_hit {
                        Some(e) => {
                            self.free_drag = true;
                            self.dragged_axis = None;
                            self.dragged_entity = Some(e);
                            self.has_initials = true;
                            MoveAction::StartFree(e)
                        },
                        None => MoveAction::Idle,
                    },
                },
            }
        } else if f.buttons.pressed {
            match self.dragged_plane {
                Some(n) => MoveAction::DragPlane(n),
                None => match self.dragged_axis {
                    Some(a) => MoveAction::DragAxis(a),
                    None => if self.free_drag { MoveAction::DragFree } else { MoveAction::Idle },
                },
            }
        } else if f.buttons.just_released {
            let commit = self.is_dragging() && self.has_initials;
            self.end_drag();
            if commit { MoveAction::Commit } else { MoveAction::Idle }
        } else {
            MoveAction::Idle
        }
    }

    /// A distance typed during an axis drag: when the Move tool owns the
    /// entry and an axis drag with recorded positions is live, the drag
    /// ends and the axis to move the selection along is returned; anything
    /// else leaves the state as it is.
    pub fn finalize_numeric_input(&mut self, owned_by_move: bool) -> (r: Option<Axis3d>)
        ensures
            (owned_by_move && old(self).dragged_axis is Some && old(self).has_initials) ==> r == old(self).dragged_axis
                && *final(self) == drag_ended(*old(self)),
            !(owned_by_move && old(self).dragged_axis is Some && old(self).has_initials) ==> r is None
                && *final(self) == *old(self),
    {
        if !owned_by_move || !self.has_initials {
            return None;
        }
        match self.dragged_axis {
            Some(a) => {
                self.end_drag();
                Some(a)
            },
            None => None,
        }
    }
}

/// Escape during a live drag, with the tool on, always restores the parts
/// and ends the drag.
pub proof fn law_escape_cancels_a_drag<E>(s: MoveDragState<E>, f: MoveFrame<E>)
    requires
        f.escape,
        move_dragging(s),
    ensures
        move_next(s, true, f).1 == MoveAction::<E>::Restore,
        !move_dragging(move_next(s, true, f).0),
        !move_next(s, true, f).0.has_initials,
{
}

/// A processed release always ends the drag, and commits only a drag that
/// was live and recorded.
pub proof fn law_release_ends_the_drag<E>(s: MoveDragState<E>, f: MoveFrame<E>)
    requires
        !f.escape || !move_dragging(s),
        f.cursor_in_window,
        f.has_ray,
        f.has_selection,
        f.in_viewport,
        !f.buttons.just_pressed,
        !f.buttons.pressed,
        f.buttons.just_released,
    ensures
        !move_dragging(move_next(s, true, f).0),
        move_next(s, true, f).1 == MoveAction::<E>::Commit <==> (move_dragging(s) && s.has_initials),
{
}

/// Holding the button, without Escape, never changes which handle or part
/// is being dragged.
pub proof fn law_held_frames_keep_the_grab<E>(s: MoveDragState<E>, active: bool, f: MoveFrame<E>)
    requires
        !f.escape,
        !f.buttons.just_pressed,
        f.buttons.pressed,
    ensures
        move_next(s, active, f).0.dragged_axis == s.dragged_axis,
        move_next(s, active, f).0.dragged_plane == s.dragged_plane,
        move_next(s, active, f).0.free_drag == s.free_drag,
        move_next(s, active, f).0.dragged_entity == s.dragged_entity,
{
}

/// A plane handle wins over an axis handle, both for the highlight and
/// for what a press grabs.
pub proof fn law_plane_handles_take_priority<E>(s: MoveDragState<E>, f: MoveFrame<E>, n: Axis3d)
    requires
        !move_dragging(s),
        f.plane_hit == Some(n),
        f.cursor_in_window,
        f.has_ray,
        f.has_selection,
        f.in_viewport,
    ensures
        move_next(s, true, f).0.hovered_axis is None,
        f.buttons.just_pressed ==> move_next(s, true, f).1 == MoveAction::<E>::StartPlane(n)
            && move_next(s, true, f).0.dragged_plane == Some(n)
            && move_next(s, true, f).0.dragged_axis is None,
{
}

} // verus!
