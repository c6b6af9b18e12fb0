//! The pointer state machine of modal tools: which tool callback each
//! frame belongs to, what a step's result does to the session, and when
//! Escape or Backspace reach the tool.
//!
//! A tool that does not want drags gets `on_click` on the frame the left
//! button goes down and `on_hover` on every other frame. A tool that wants
//! drags has its press armed: inside the dead zone it keeps hovering;
//! leaving the dead zone promotes the press to a drag (`on_drag_start`
//! with the anchor, then `on_drag` with the live cursor); release ends it
//! with `on_drag_end`, or with `on_click` if the dead zone was never left.
//! When the cursor leaves the tool's reach a live drag is closed out at
//! the last hit in reach and the press is forgotten.
//!
//! Positions and hits are carried as the caller's own values: the machine
//! never looks inside them. Whether the cursor left the dead zone is a
//! distance the caller measures.

use vstd::prelude::*;

verus! {

/// Result of a single interaction step: whether the session continues,
/// commits or cancels.
#[derive(Debug, Clone, Copy, PartialEq, Eq, Structural)]
pub enum ToolStepResult {
    /// Continue the session; wait for the next input.
    Continue,
    /// Commit the tool's result, then end the session.
    Commit,
    /// End the session without committing.
    Cancel,
}

/// The axis typed input is aimed at.
#[derive(Debug, Clone, Copy, PartialEq, Eq, Structural)]
pub enum ToolAxis {
    X,
    Y,
    Z,
    W,
}

/// The runtime's memory of an in-flight left-button gesture, for a tool
/// that wants drags.
pub struct ModalToolDragState<P, H> {
    /// Cursor position on the frame the button went down; `None` when no
    /// gesture is armed.
    pub press_pos: Option<P>,
    /// The hit under the cursor at press time: the anchor every drag
    /// callback receives as its start.
    pub press_hit: Option<H>,
    /// The last hit sampled while the cursor was in reach.
    pub last_hit: Option<H>,
    /// True once the press left the dead zone and `on_drag_start` fired.
    pub dragging: bool,
}

/// The state with no gesture armed.
pub open spec fn cleared<P, H>() -> ModalToolDragState<P, H> {
    ModalToolDragState { press_pos: None, press_hit: None, last_hit: None, dragging: false }
}

impl<P, H> ModalToolDragState<P, H> {
    /// A live drag always has its press and anchor.
    pub open spec fn consistent(self) -> bool {
        self.dragging ==> (self.press_pos is Some && self.press_hit is Some)
    }

    /// The state with no gesture armed.
    pub fn new() -> (r: Self)
        ensures
            r == cleared::<P, H>(),
    {
        ModalToolDragState { press_pos: None, press_hit: None, last_hit: None, dragging: false }
    }

    /// True while a promoted drag is live.
    pub fn is_dragging(&self) -> (r: bool)
        ensures
            r == self.dragging,
    {
        self.dragging
    }

    /// Forget any armed press.
    pub fn clear(&mut self)
        ensures
            *final(self) == cleared::<P, H>(),
    {
        self.press_pos = None;
        self.press_hit = None;
        self.last_hit = None;
        self.dragging = false;
    }
}

impl<P, H> Default for ModalToolDragState<P, H> {
    fn default() -> (r: Self)
        ensures
            r == cleared::<P, H>(),
    {
        Self::new()
    }
}

/// The left button this frame.
#[derive(Debug, Clone, Copy, PartialEq, Eq, Structural)]
pub struct MouseButtons {
    /// The button went down this frame.
    pub just_pressed: bool,
    /// The button came up this frame.
    pub just_released: bool,
    /// The button is down.
    pub pressed: bool,
}

/// The callback a frame belongs to.
#[derive(Debug, Clone, PartialEq, Eq)]
pub enum ToolCall<H> {
    /// No callback; the step result is `Continue`.
    Idle,
    /// `on_hover` at the hit.
    Hover(H),
    /// `on_click` at the hit.
    Click(H),
    /// `on_drag_start` at the anchor, then, if that returns `Continue`,
    /// `on_drag` from the anchor to the live hit.
    DragStart { start: H, current: H },
    /// `on_drag` from the anchor to the live hit.
    Drag { start: H, current: H },
    /// `on_drag_end` from the anchor to the end hit.
    DragEnd { start: H, end: H },
}

/// What one frame does to the gesture state and which callback it makes:
/// `frame` is the cursor position and hit, or `None` when the cursor is out
/// of the tool's reach; `beyond_threshold` says whether the cursor is
/// farther than the dead zone from the armed press position.
pub open spec fn pointer_next<P, H>(
    s: ModalToolDragState<P, H>,
    tool_active: bool,
    frame: Option<(P, H)>,
    buttons: MouseButtons,
    wants_drag: bool,
    beyond_threshold: bool,
) -> (ModalToolDragState<P, H>, ToolCall<H>) {
    if !tool_active {
        (cleared(), ToolCall::Idle)
    } else {
        match frame {
            None => {
                let call = if s.dragging {
                    match s.press_hit {
                        Some(start) => ToolCall::DragEnd {
                            start,
                            end: match s.last_hit {
                                Some(h) => h,
                                None => start,
                            },
                        },
                        None => ToolCall::Idle,
                    }
                } else {
                    ToolCall::Idle
                };
                (cleared(), call)
            },
            Some((pos, hit)) => {
                if !wants_drag {
                    (s, if buttons.just_pressed { ToolCall::Click(hit) } else { ToolCall::Hover(hit) })
                } else {
                    let s1 = ModalToolDragState { last_hit: Some(hit), ..s };
                    if buttons.just_pressed && buttons.just_released {
                        (cleared(), ToolCall::Click(hit))
                    } else if buttons.just_pressed {
                        (
                            ModalToolDragState {
                                press_pos: Some(pos),
                                press_hit: Some(hit),
                                dragging: false,
                                ..s1
                            },
                            ToolCall::Idle,
                        )
                    } else if buttons.just_released {
                        (
                            cleared(),
                            match s.press_hit {
                                Some(start) => if s.dragging {
                                    ToolCall::DragEnd { start, end: hit }
                                } else {
                                    ToolCall::Click(hit)
                                },
                                None => ToolCall::Idle,
                            },
                        )
                    } else if buttons.pressed {
                        if s.press_pos is Some && s.press_hit is Some {
                            let start = s.press_hit->0;
                            if s.dragging {
                                (s1, ToolCall::Drag { start, current: hit })
                            } else if beyond_threshold {
                                (
                                    ModalToolDragState { dragging: true, ..s1 },
                                    ToolCall::DragStart { start, current: hit },
                                )
                            } else {
                                (s1, ToolCall::Hover(hit))
                            }
                        } else {
                            (s1, ToolCall::Hover(hit))
                        }
                    } else {
                        let next = if s.press_pos is Some { cleared() } else { s1 };
                        let call = if s.dragging && s.press_hit is Some {
                            ToolCall::DragEnd { start: s.press_hit->0, end: hit }
                        } else {
                            ToolCall::Hover(hit)
                        };
                        (next, call)
                    }
                }
            },
        }
    }
}

/// A copy of an optional hit.
fn copy_hit<H: Copy>(h: &Option<H>) -> (r: Option<H>)
    ensures
        r == *h,
{
    match h {
        Some(x) => Some(*x),
        None => None,
    }
}

/// The per-frame pump: decide which tool callback this frame belongs to,
/// and update the gesture state.
pub fn run_active_modal_tool<P: Copy, H: Copy>(
    drag: &mut ModalToolDragState<P, H>,
    tool_active: bool,
    frame: Option<(P, H)>,
    buttons: MouseButtons,
    wants_drag: bool,
    beyond_threshold: bool,
) -> (r: ToolCall<H>)
    ensures
        (*final(drag), r) == pointer_next(*old(drag), tool_active, frame, buttons, wants_drag, beyond_threshold),
{
    if !tool_active {
        drag.clear();
        return ToolCall::Idle;
    }
    match frame {
        None => {
            let pending = if drag.dragging {
                match copy_hit(&drag.press_hit) {
                    Some(start) => {
                        let end = match copy_hit(&drag.last_hit) {
                            Some(h) => h,
                            None => start,
                        };
                        ToolCall::DragEnd { start, end }
                    },
                    None => ToolCall::Idle,
                }
            } else {
                ToolCall::Idle
            };
            drag.clear();
            pending
        },
        Some((pos, hit)) => {
            if !wants_drag {
                if buttons.just_pressed {
                    return ToolCall::Click(hit);
                } else {
                    return ToolCall::Hover(hit);
                }
            }
            drag.last_hit = Some(hit);
            if buttons.just_pressed && buttons.just_released {
                drag.clear();
                ToolCall::Click(hit)
            } else if buttons.just_pressed {
                drag.press_pos = Some(pos);
                drag.press_hit = Some(hit);
                drag.dragging = false;
                ToolCall::Idle
            } else if buttons.just_released {
                let was_dragging = drag.dragging;
                let start = copy_hit(&drag.press_hit);
                drag.clear();
                match start {
                    Some(start) => if was_dragging {
                        ToolCall::DragEnd { start, end: hit }
                    } else {
                        ToolCall::Click(hit)
                    },
                    None => ToolCall::Idle,
                }
            } else if buttons.pressed {
                match (drag.press_pos.is_some(), copy_hit(&drag.press_hit)) {
                    (true, Some(start)) => {
                        if drag.dragging {
                            ToolCall::Drag { start, current: hit }
                        } else if beyond_threshold {
                            drag.dragging = true;
                            ToolCall::DragStart { start, current: hit }
                        } else {
                            ToolCall::Hover(hit)
                        }
                    },
                    _ => ToolCall::Hover(hit),
                }
            } else {
                let stale = if drag.dragging {
                    copy_hit(&drag.press_hit)
                } else {
                    None
                };
                if drag.press_pos.is_some() {
                    drag.clear();
                }
                match stale {
                    Some(start) => ToolCall::DragEnd { start, end: hit },
                    None => ToolCall::Hover(hit),
                }
            }
        },
    }
}

/// Whether `on_drag` follows `on_drag_start` in the same frame: only when
/// the start left the session going.
pub fn drag_follows_start(started: ToolStepResult) -> (r: bool)
    ensures
        r == (started == ToolStepResult::Continue),
{
    match started {
        ToolStepResult::Continue => true,
        _ => false,
    }
}

/// What the runtime does with a step's result.
#[derive(Debug, Clone, Copy, PartialEq, Eq, Structural)]
pub enum StepOutcome {
    /// The session goes on.
    Continue,
    /// The tool is cancelled and the session ends.
    Cancelled,
    /// The tool's result is committed and the session ends; the editor
    /// switches back to the Select tool when `switch_to_select` is set.
    Committed { switch_to_select: bool },
}

/// Apply a step's result: `Continue` leaves everything as it is; `Cancel`
/// and `Commit` forget any armed press and end the session, and a commit
/// switches back to Select when the tool exits on commit.
pub fn handle_step_result<P, H>(
    result: ToolStepResult,
    auto_exit_on_commit: bool,
    drag: &mut ModalToolDragState<P, H>,
) -> (r: StepOutcome)
    ensures
        result == ToolStepResult::Continue ==> r == StepOutcome::Continue && *final(drag) == *old(drag),
        result == ToolStepResult::Cancel ==> r == StepOutcome::Cancelled && *final(drag) == cleared::<P, H>(),
        result == ToolStepResult::Commit ==> r == (StepOutcome::Committed { switch_to_select: auto_exit_on_commit })
            && *final(drag) == cleared::<P, H>(),
{
    match result {
        ToolStepResult::Continue => StepOutcome::Continue,
        ToolStepResult::Cancel => {
            drag.clear();
            StepOutcome::Cancelled
        },
        ToolStepResult::Commit => {
            drag.clear();
            StepOutcome::Committed { switch_to_select: auto_exit_on_commit }
        },
    }
}

/// Whether the active tool is cancelled this frame: by Escape, unless a
/// text field has the keyboard (then Escape only leaves the field), or by
/// an explicit cancel request; never when no tool is active.
pub fn cancel_requested(escape_pressed: bool, text_input_focused: bool, explicit: bool, tool_active: bool) -> (r: bool)
    ensures
        r == (((escape_pressed && !text_input_focused) || explicit) && tool_active),
{
    let esc = escape_pressed && !text_input_focused;
    (esc || explicit) && tool_active
}

/// Whether the active tool steps back one pick this frame: by Backspace,
/// unless a text field has the keyboard, or by an explicit request; never
/// when no tool is active.
pub fn step_back_requested(backspace_pressed: bool, text_input_focused: bool, explicit: bool, tool_active: bool) -> (r: bool)
    ensures
        r == (((backspace_pressed && !text_input_focused) || explicit) && tool_active),
{
    let backspace = backspace_pressed && !text_input_focused;
    (backspace || explicit) && tool_active
}

/// Whether non-modal tools must stand aside: a modal tool is active.
pub fn should_suppress_non_modal(active: Option<bool>) -> (r: bool)
    ensures
        r == (active == Some(true)),
{
    match active {
        Some(a) => a,
        None => false,
    }
}

/// The pump keeps a live drag's press and anchor.
pub proof fn law_pointer_keeps_consistency<P, H>(
    s: ModalToolDragState<P, H>,
    tool_active: bool,
    frame: Option<(P, H)>,
    buttons: MouseButtons,
    wants_drag: bool,
    beyond_threshold: bool,
)
    requires
        s.consistent(),
    ensures
        pointer_next(s, tool_active, frame, buttons, wants_drag, beyond_threshold).0.consistent(),
{
}

/// A drag ends only where one started, and only once: `on_drag_end` comes
/// only while a drag is live, and leaves none live.
pub proof fn law_drag_end_closes_a_live_drag<P, H>(
    s: ModalToolDragState<P, H>,
    tool_active: bool,
    frame: Option<(P, H)>,
    buttons: MouseButtons,
    wants_drag: bool,
    beyond_threshold: bool,
)
    requires
        s.consistent(),
        pointer_next(s, tool_active, frame, buttons, wants_drag, beyond_threshold).1 is DragEnd,
    ensures
        s.dragging,
        !pointer_next(s, tool_active, frame, buttons, wants_drag, beyond_threshold).0.dragging,
{
}

/// A drag starts only where none is live, and leaves one live.
pub proof fn law_drag_start_opens_a_drag<P, H>(
    s: ModalToolDragState<P, H>,
    tool_active: bool,
    frame: Option<(P, H)>,
    buttons: MouseButtons,
    wants_drag: bool,
    beyond_threshold: bool,
)
    requires
        pointer_next(s, tool_active, frame, buttons, wants_drag, beyond_threshold).1 is DragStart,
    ensures
        !s.dragging,
        pointer_next(s, tool_active, frame, buttons, wants_drag, beyond_threshold).0.dragging,
{
}

/// A live drag stays live until its `on_drag_end`, as long as the tool is
/// active and no new press arrives.
pub proof fn law_live_drag_ends_only_with_drag_end<P, H>(
    s: ModalToolDragState<P, H>,
    frame: Option<(P, H)>,
    buttons: MouseButtons,
    wants_drag: bool,
    beyond_threshold: bool,
)
    requires
        s.consistent(),
        s.dragging,
        !buttons.just_pressed,
        !(pointer_next(s, true, frame, buttons, wants_drag, beyond_threshold).1 is DragEnd),
    ensures
        pointer_next(s, true, frame, buttons, wants_drag, beyond_threshold).0.dragging,
{
}

/// Every drag callback measures from the anchor captured at press time.
pub proof fn law_drag_measures_from_anchor<P, H>(
    s: ModalToolDragState<P, H>,
    tool_active: bool,
    frame: Option<(P, H)>,
    buttons: MouseButtons,
    wants_drag: bool,
    beyond_threshold: bool,
)
    ensures
        match pointer_next(s, tool_active, frame, buttons, wants_drag, beyond_threshold).1 {
            ToolCall::DragStart { start, .. } => s.press_hit == Some(start),
            ToolCall::Drag { start, .. } => s.press_hit == Some(start),
            ToolCall::DragEnd { start, .. } => s.press_hit == Some(start),
            _ => true,
        },
{
}

/// Leaving the tool's reach forgets the press, and with no press armed no
/// frame without a new press makes a drag callback: a stale press never
/// resurrects a drag.
pub proof fn law_stale_press_never_resurrects<P, H>(
    s: ModalToolDragState<P, H>,
    tool_active: bool,
    frame: Option<(P, H)>,
    buttons: MouseButtons,
    wants_drag: bool,
    beyond_threshold: bool,
)
    requires
        s.consistent(),
    ensures
        frame is None ==> pointer_next(s, tool_active, frame, buttons, wants_drag, beyond_threshold).0 == cleared::<P, H>(),
        (s.press_hit is None && !buttons.just_pressed) ==> {
            let call = pointer_next(s, tool_active, frame, buttons, wants_drag, beyond_threshold).1;
            !(call is DragStart) && !(call is Drag) && !(call is DragEnd)
        },
{
}

/// A tool that does not want drags gets its click on the frame the button
/// goes down, and a hover on every other frame in reach.
pub proof fn law_click_tools_click_on_press<P, H>(
    s: ModalToolDragState<P, H>,
    pos: P,
    hit: H,
    buttons: MouseButtons,
    beyond_threshold: bool,
)
    ensures
        pointer_next(s, true, Some((pos, hit)), buttons, false, beyond_threshold).1 == if buttons.just_pressed {
            ToolCall::Click(hit)
        } else {
            ToolCall::Hover(hit)
        },
{
}

} // verus!
