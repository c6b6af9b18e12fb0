//! The measure tool's modes and its pick sequence: two clicks for a
//! distance, three (leg, vertex, leg) for an angle; area, volume and mass
//! read the selection when Compute is pressed. Points are the caller's
//! own values; the readings themselves are computed by the caller.

use vstd::prelude::*;
use crate::modal_tool::ToolStepResult;
use crate::text::str_eq;

verus! {

/// What the tool measures.
#[derive(Debug, Clone, Copy, PartialEq, Eq, Structural)]
pub enum MeasureMode {
    Distance,
    Angle,
    Area,
    Volume,
    /// Mass and center of mass, weighted by material density.
    Mass,
}

/// The mode's name in the Options Bar.
pub open spec fn spec_mode_str(m: MeasureMode) -> Seq<char> {
    match m {
        MeasureMode::Distance => "distance"@,
        MeasureMode::Angle => "angle"@,
        MeasureMode::Area => "area"@,
        MeasureMode::Volume => "volume"@,
        MeasureMode::Mass => "mass"@,
    }
}

/// The mode a name selects; any unknown name selects Distance.
pub open spec fn spec_mode_from(s: Seq<char>) -> MeasureMode {
    if s == "angle"@ {
        MeasureMode::Angle
    } else if s == "area"@ {
        MeasureMode::Area
    } else if s == "volume"@ {
        MeasureMode::Volume
    } else if s == "mass"@ {
        MeasureMode::Mass
    } else {
        MeasureMode::Distance
    }
}

impl MeasureMode {
    /// The mode's name.
    pub fn as_str(self) -> (r: &'static str)
        ensures
            r@ == spec_mode_str(self),
    {
        match self {
            MeasureMode::Distance => "distance",
            MeasureMode::Angle => "angle",
            MeasureMode::Area => "area",
            MeasureMode::Volume => "volume",
            MeasureMode::Mass => "mass",
        }
    }

    /// The mode a name selects; any unknown name selects Distance.
    pub fn from_str(s: &str) -> (r: Self)
        ensures
            r == spec_mode_from(s@),
    {
        if str_eq(s, "angle") {
            MeasureMode::Angle
        } else if str_eq(s, "area") {
            MeasureMode::Area
        } else if str_eq(s, "volume") {
            MeasureMode::Volume
        } else if str_eq(s, "mass") {
            MeasureMode::Mass
        } else {
            MeasureMode::Distance
        }
    }
}

/// Reading a mode's name back gives the mode.
pub proof fn law_mode_name_roundtrip(m: MeasureMode)
    ensures
        spec_mode_from(spec_mode_str(m)) == m,
{
    reveal_strlit("distance");
    reveal_strlit("angle");
    reveal_strlit("area");
    reveal_strlit("volume");
    reveal_strlit("mass");
    assert("distance"@.len() != "angle"@.len());
    assert("distance"@.len() != "area"@.len());
    assert("distance"@.len() != "volume"@.len());
    assert("distance"@.len() != "mass"@.len());
    assert("area"@.len() != "angle"@.len());
    assert("volume"@.len() != "angle"@.len());
    assert("volume"@.len() != "area"@.len());
    assert("mass"@.len() != "angle"@.len());
    assert("mass"@.len() != "volume"@.len());
    assert("mass"@[0] != "area"@[0]);
}

/// Whether the mode reads the selection rather than clicked points.
pub open spec fn reads_selection(m: MeasureMode) -> bool {
    m == MeasureMode::Area || m == MeasureMode::Volume || m == MeasureMode::Mass
}

/// One session of the measure tool: its mode and the points picked so far.
pub struct MeasureDistanceTool<P> {
    pub mode: MeasureMode,
    pub point_a: Option<P>,
    pub point_b: Option<P>,
    pub point_c: Option<P>,
}

/// The tool's state after a click at `p`: Distance fills the first, then
/// the second point, and a third click starts a new pair; Angle fills leg,
/// vertex and leg, and a fourth click starts over; the other modes ignore
/// clicks.
pub open spec fn after_click<P>(t: MeasureDistanceTool<P>, p: P) -> MeasureDistanceTool<P> {
    match t.mode {
        MeasureMode::Distance => if t.point_a is None {
            MeasureDistanceTool { point_a: Some(p), ..t }
        } else if t.point_b is None {
            MeasureDistanceTool { point_b: Some(p), ..t }
        } else {
            MeasureDistanceTool { point_a: Some(p), point_b: None, ..t }
        },
        MeasureMode::Angle => if t.point_a is None {
            MeasureDistanceTool { point_a: Some(p), ..t }
        } else if t.point_b is None {
            MeasureDistanceTool { point_b: Some(p), ..t }
        } else if t.point_c is None {
            MeasureDistanceTool { point_c: Some(p), ..t }
        } else {
            MeasureDistanceTool { point_a: Some(p), point_b: None, point_c: None, ..t }
        },
        _ => t,
    }
}

impl<P> MeasureDistanceTool<P> {
    /// A fresh session: Distance mode, no points.
    pub fn new() -> (r: Self)
        ensures
            r.mode == MeasureMode::Distance,
            r.point_a is None && r.point_b is None && r.point_c is None,
    {
        MeasureDistanceTool { mode: MeasureMode::Distance, point_a: None, point_b: None, point_c: None }
    }

    /// The tool's stable identifier.
    pub fn id(&self) -> (r: &'static str)
        ensures
            r@ == "measure_distance"@,
    {
        "measure_distance"
    }

    /// The tool's display name.
    pub fn name(&self) -> (r: &'static str)
        ensures
            r@ == "Measure"@,
    {
        "Measure"
    }

    /// The tool stays active after a commit, for repeated readings.
    pub fn auto_exit_on_commit(&self) -> (r: bool)
        ensures
            !r,
    {
        false
    }

    /// Record a click at `p`; the session goes on.
    pub fn on_click(&mut self, p: P) -> (r: ToolStepResult)
        ensures
            r == ToolStepResult::Continue,
            *final(self) == after_click(*old(self), p),
    {
        match self.mode {
            MeasureMode::Distance => {
                if self.point_a.is_none() {
                    self.point_a = Some(p);
                } else if self.point_b.is_none() {
                    self.point_b = Some(p);
                } else {
                    self.point_a = Some(p);
                    self.point_b = None;
                }
            },
            MeasureMode::Angle => {
                if self.point_a.is_none() {
                    self.point_a = Some(p);
                } else if self.point_b.is_none() {
                    self.point_b = Some(p);
                } else if self.point_c.is_none() {
                    self.point_c = Some(p);
                } else {
                    self.point_a = Some(p);
                    self.point_b = None;
                    self.point_c = None;
                }
            },
            _ => {},
        }
        ToolStepResult::Continue
    }

    /// Forget the picked points.
    pub fn cancel(&mut self)
        ensures
            final(self).mode == old(self).mode,
            final(self).point_a is None && final(self).point_b is None && final(self).point_c is None,
    {
        self.point_a = None;
        self.point_b = None;
        self.point_c = None;
    }

    /// An Options Bar control changed: `mode` switches mode and forgets the
    /// points; `reset` set to `true` forgets the points; `compute` set to
    /// `true` asks for a commit, which reads the selection; anything else
    /// changes nothing.
    pub fn on_option_changed(&mut self, id: &str, value: &str) -> (r: ToolStepResult)
        ensures
            id@ == "mode"@ ==> r == ToolStepResult::Continue && final(self).mode == spec_mode_from(value@)
                && final(self).point_a is None && final(self).point_b is None && final(self).point_c is None,
            id@ == "reset"@ && value@ == "true"@ ==> r == ToolStepResult::Continue
                && final(self).mode == old(self).mode
                && final(self).point_a is None && final(self).point_b is None && final(self).point_c is None,
            id@ == "compute"@ && value@ == "true"@ ==> r == ToolStepResult::Commit && *final(self) == *old(self),
            !(id@ == "mode"@) && !(id@ == "reset"@ && value@ == "true"@) && !(id@ == "compute"@ && value@ == "true"@)
                ==> r == ToolStepResult::Continue && *final(self) == *old(self),
    {
        proof {
            reveal_strlit("mode");
            reveal_strlit("reset");
            reveal_strlit("compute");
            assert("mode"@.len() != "reset"@.len());
            assert("mode"@.len() != "compute"@.len());
            assert("reset"@.len() != "compute"@.len());
        }
        if str_eq(id, "mode") {
            self.mode = MeasureMode::from_str(value);
            self.point_a = None;
            self.point_b = None;
            self.point_c = None;
            ToolStepResult::Continue
        } else if str_eq(id, "reset") && str_eq(value, "true") {
            self.point_a = None;
            self.point_b = None;
            self.point_c = None;
            ToolStepResult::Continue
        } else if str_eq(id, "compute") && str_eq(value, "true") {
            ToolStepResult::Commit
        } else {
            ToolStepResult::Continue
        }
    }

    /// Whether the session reads the selection on commit (Area, Volume,
    /// Mass) rather than clicked points; those modes show a Compute button.
    pub fn reads_selection(&self) -> (r: bool)
        ensures
            r == reads_selection(self.mode),
    {
        match self.mode {
            MeasureMode::Area | MeasureMode::Volume | MeasureMode::Mass => true,
            _ => false,
        }
    }

    /// The step label while it is a prompt; `None` once the picked points
    /// make a reading, which the label then shows.
    pub fn step_prompt(&self) -> (r: Option<&'static str>)
        ensures
            r is None <==> match self.mode {
                MeasureMode::Distance => self.point_a is Some && self.point_b is Some,
                MeasureMode::Angle => self.point_a is Some && self.point_b is Some && self.point_c is Some,
                _ => false,
            },
            self.mode == MeasureMode::Distance && self.point_a is None ==> r == Some("click first point"),
            self.mode == MeasureMode::Distance && self.point_a is Some && self.point_b is None ==> r == Some(
                "click second point",
            ),
            self.mode == MeasureMode::Angle && self.point_a is None ==> r == Some("click first leg endpoint"),
            self.mode == MeasureMode::Angle && self.point_a is Some && self.point_b is None ==> r == Some(
                "click vertex",
            ),
            self.mode == MeasureMode::Angle && self.point_a is Some && self.point_b is Some
                && self.point_c is None ==> r == Some("click second leg endpoint"),
            self.mode == MeasureMode::Area ==> r == Some("area — read selection"),
            self.mode == MeasureMode::Volume ==> r == Some("volume — read selection"),
            self.mode == MeasureMode::Mass ==> r == Some("mass — read selection (uses material density)"),
    {
        match self.mode {
            MeasureMode::Distance => {
                if self.point_a.is_none() {
                    Some("click first point")
                } else if self.point_b.is_none() {
                    Some("click second point")
                } else {
                    None
                }
            },
            MeasureMode::Angle => {
                if self.point_a.is_none() {
                    Some("click first leg endpoint")
                } else if self.point_b.is_none() {
                    Some("click vertex")
                } else if self.point_c.is_none() {
                    Some("click second leg endpoint")
                } else {
                    None
                }
            },
            MeasureMode::Area => Some("area — read selection"),
            MeasureMode::Volume => Some("volume — read selection"),
            MeasureMode::Mass => Some("mass — read selection (uses material density)"),
        }
    }

    /// The Options Bar readout while it is a hint; `None` once the picked
    /// points make a reading.
    pub fn readout_hint(&self) -> (r: Option<&'static str>)
        ensures
            r is None <==> match self.mode {
                MeasureMode::Distance => self.point_a is Some && self.point_b is Some,
                MeasureMode::Angle => self.point_a is Some && self.point_b is Some && self.point_c is Some,
                _ => false,
            },
            self.mode == MeasureMode::Distance && r is Some ==> r == Some("— click two points —"),
            self.mode == MeasureMode::Angle && r is Some ==> r == Some("— click leg, vertex, leg —"),
            self.mode == MeasureMode::Area ==> r == Some("select parts, click Compute to read area"),
            self.mode == MeasureMode::Volume ==> r == Some("select parts, click Compute to read volume"),
            self.mode == MeasureMode::Mass ==> r == Some(
                "select parts, click Compute to read mass + center-of-mass",
            ),
    {
        match self.mode {
            MeasureMode::Distance => {
                if self.point_a.is_some() && self.point_b.is_some() {
                    None
                } else {
                    Some("— click two points —")
                }
            },
            MeasureMode::Angle => {
                if self.point_a.is_some() && self.point_b.is_some() && self.point_c.is_some() {
                    None
                } else {
                    Some("— click leg, vertex, leg —")
                }
            },
            MeasureMode::Area => Some("select parts, click Compute to read area"),
            MeasureMode::Volume => Some("select parts, click Compute to read volume"),
            MeasureMode::Mass => Some("select parts, click Compute to read mass + center-of-mass"),
        }
    }
}

/// Clicking in Distance mode cycles through pairs: the third click starts
/// a new pair at the clicked point.
pub proof fn law_third_click_starts_new_pair<P>(t: MeasureDistanceTool<P>, p: P, q: P, r: P)
    requires
        t.mode == MeasureMode::Distance,
        t.point_a is None,
        t.point_b is None,
    ensures
        after_click(after_click(after_click(t, p), q), r).point_a == Some(r),
        after_click(after_click(after_click(t, p), q), r).point_b is None,
        after_click(after_click(t, p), q).point_a == Some(p),
        after_click(after_click(t, p), q).point_b == Some(q),
{
}

/// Clicks only ever fill points that the mode uses.
pub proof fn law_clicks_stay_in_mode<P>(t: MeasureDistanceTool<P>, p: P)
    ensures
        after_click(t, p).mode == t.mode,
        t.mode == MeasureMode::Distance ==> after_click(t, p).point_c == t.point_c,
        reads_selection(t.mode) ==> after_click(t, p) == t,
{
}

} // verus!
