//! Typed numeric entry during a gizmo drag: which tool owns the entry,
//! which keystrokes the buffer accepts, what Enter, Escape, Backspace and
//! Tab do, and how a buffer splits into a number and a unit (or an
//! expression after `=`). Turning the number and unit into a value is
//! arithmetic the caller does.

use vstd::prelude::*;
use crate::move_tool::{Axis3d, spec_axis_letter};
use crate::text::{
    chars_of, string_of, push_char, push_str, is_whitespace, is_ws, is_digit, trim, trimmed,
    to_ascii_lower, ascii_lower, ascii_lower_seq, str_eq,
};

verus! {

/// The tool that owns the current numeric entry.
#[derive(Debug, Clone, Copy, PartialEq, Eq, Structural)]
pub enum NumericInputOwner {
    Move,
    Scale,
    Rotate,
}

/// The unit suffix shown in the floating input.
pub open spec fn spec_unit(o: NumericInputOwner) -> Seq<char> {
    match o {
        NumericInputOwner::Move => "studs"@,
        NumericInputOwner::Scale => "×"@,
        NumericInputOwner::Rotate => "°"@,
    }
}

/// The axis label: empty without an axis, else `along X axis` for Move,
/// `on X axis` for Scale, `around X axis` for Rotate.
pub open spec fn spec_axis_label(o: NumericInputOwner, axis: Option<Axis3d>) -> Seq<char> {
    match axis {
        None => Seq::empty(),
        Some(a) => (match o {
            NumericInputOwner::Move => "along "@,
            NumericInputOwner::Scale => "on "@,
            NumericInputOwner::Rotate => "around "@,
        }) + spec_axis_letter(a) + " axis"@,
    }
}

impl NumericInputOwner {
    /// The unit suffix shown in the floating input.
    pub fn unit(self) -> (r: &'static str)
        ensures
            r@ == spec_unit(self),
    {
        match self {
            NumericInputOwner::Move => "studs",
            NumericInputOwner::Scale => "×",
            NumericInputOwner::Rotate => "°",
        }
    }

    /// The label for the current axis, e.g. `along X axis`.
    pub fn axis_label(self, axis: Option<Axis3d>) -> (r: String)
        ensures
            r@ == spec_axis_label(self, axis),
    {
        let mut s = String::new();
        match axis {
            None => s,
            Some(a) => {
                match self {
                    NumericInputOwner::Move => push_str(&mut s, "along "),
                    NumericInputOwner::Scale => push_str(&mut s, "on "),
                    NumericInputOwner::Rotate => push_str(&mut s, "around "),
                }
                push_str(&mut s, a.letter());
                push_str(&mut s, " axis");
                s
            },
        }
    }
}

/// An ASCII letter.
pub open spec fn is_alpha(c: char) -> bool {
    ('a' <= c && c <= 'z') || ('A' <= c && c <= 'Z')
}

/// Whether some character of `t` is an ASCII digit.
pub open spec fn has_digit(t: Seq<char>) -> bool {
    exists|i: int| 0 <= i < t.len() && is_digit(#[trigger] t[i])
}

/// Whether some character of `t` is an ASCII letter.
pub open spec fn has_alpha(t: Seq<char>) -> bool {
    exists|i: int| 0 <= i < t.len() && is_alpha(#[trigger] t[i])
}

/// Whether the buffer accepts the typed character. After a leading `=`
/// (expression mode) operators, parentheses, commas, dots, spaces, `°`,
/// digits and letters are all accepted. Otherwise: a dot once and before
/// any letter; a sign or `=` only at the start; a space only after a digit;
/// a digit before any letter; a letter or `°` (a unit) only after a digit;
/// nothing else.
pub open spec fn accepts(t: Seq<char>, c: char) -> bool {
    let at_start = t.len() == 0;
    let expr_mode = (t.len() > 0 && t[0] == '=') || (at_start && c == '=');
    if expr_mode {
        c == '=' || c == '+' || c == '-' || c == '*' || c == '/' || c == '^' || c == '(' || c == ')'
            || c == ',' || c == '.' || c == ' ' || c == '°' || is_digit(c) || is_alpha(c)
    } else if c == '.' {
        !t.contains('.') && !has_alpha(t)
    } else if c == '-' || c == '+' || c == '=' {
        at_start
    } else if c == ' ' {
        has_digit(t)
    } else if is_digit(c) {
        !has_alpha(t)
    } else if is_alpha(c) || c == '°' {
        has_digit(t)
    } else {
        false
    }
}

/// Whether the buffer is a relative entry: it starts with `+` or `-+`.
pub open spec fn spec_is_relative(t: Seq<char>) -> bool {
    (t.len() >= 1 && t[0] == '+') || (t.len() >= 2 && t[0] == '-' && t[1] == '+')
}

/// Tab cycles the axis X → Y → Z → X (no axis goes to Y) for Move and
/// Scale; Rotate keeps its single axis.
pub open spec fn next_axis(owner: Option<NumericInputOwner>, axis: Option<Axis3d>) -> Option<Axis3d> {
    if owner == Some(NumericInputOwner::Move) || owner == Some(NumericInputOwner::Scale) {
        Some(
            match axis {
                Some(Axis3d::Y) => Axis3d::Z,
                Some(Axis3d::Z) => Axis3d::X,
                _ => Axis3d::Y,
            },
        )
    } else {
        axis
    }
}

/// A key pressed during numeric entry.
#[derive(Debug, Clone, Copy, PartialEq, Eq, Structural)]
pub enum NumericKey {
    Enter,
    Escape,
    Backspace,
    Tab,
    /// A character key, by its first character.
    Character(char),
    /// Any other key.
    Other,
}

/// How a frame's keys left the entry.
#[derive(Debug, Clone, Copy, PartialEq, Eq, Structural)]
pub enum NumericKeysOutcome {
    /// Entry goes on; `dirty` when the buffer was edited and must be
    /// parsed again.
    Continue { dirty: bool },
    /// Enter ended the entry; the owner, axis and relative flag it had.
    Entered { owner: Option<NumericInputOwner>, axis: Option<Axis3d>, relative: bool },
    /// Escape ended the entry.
    Escaped,
}

/// The buffer, the axis and the outcome after `keys`, from a buffer `text`
/// with owner, axis and relative flag; `dirty` says whether an edit came
/// before.
pub open spec fn keys_run(
    text: Seq<char>,
    owner: Option<NumericInputOwner>,
    axis: Option<Axis3d>,
    relative: bool,
    keys: Seq<NumericKey>,
    dirty: bool,
) -> (Seq<char>, Option<Axis3d>, NumericKeysOutcome)
    decreases keys.len(),
{
    if keys.len() == 0 {
        (text, axis, NumericKeysOutcome::Continue { dirty })
    } else {
        let rest = keys.drop_first();
        match keys[0] {
            NumericKey::Enter => (Seq::empty(), None, NumericKeysOutcome::Entered { owner, axis, relative }),
            NumericKey::Escape => (Seq::empty(), None, NumericKeysOutcome::Escaped),
            NumericKey::Backspace => keys_run(
                if text.len() > 0 { text.drop_last() } else { text },
                owner,
                axis,
                relative,
                rest,
                true,
            ),
            NumericKey::Tab => keys_run(text, owner, next_axis(owner, axis), relative, rest, dirty),
            NumericKey::Character(c) => if accepts(text, c) {
                keys_run(text.push(c), owner, axis, relative, rest, true)
            } else {
                keys_run(text, owner, axis, relative, rest, dirty)
            },
            NumericKey::Other => keys_run(text, owner, axis, relative, rest, dirty),
        }
    }
}

/// Whether a typed character starts numeric entry: a digit, `.`, `-`, `+`
/// or `=`.
pub open spec fn is_starter(c: char) -> bool {
    is_digit(c) || c == '.' || c == '-' || c == '+' || c == '='
}

/// The entry state the floating input reflects.
pub struct NumericInputState {
    pub active: bool,
    pub text: String,
    pub owner: Option<NumericInputOwner>,
    pub axis: Option<Axis3d>,
    /// `+5` (a delta from the initial value) rather than `5`.
    pub relative: bool,
}

impl NumericInputState {
    /// Whether the state is the idle one.
    pub open spec fn is_clear(self) -> bool {
        &&& !self.active
        &&& self.text@ == Seq::<char>::empty()
        &&& self.owner is None
        &&& self.axis is None
        &&& !self.relative
    }

    /// The idle state.
    pub fn new() -> (r: Self)
        ensures
            r.is_clear(),
    {
        NumericInputState { active: false, text: String::new(), owner: None, axis: None, relative: false }
    }

    /// Back to the idle state.
    pub fn clear(&mut self)
        ensures
            final(self).is_clear(),
    {
        self.active = false;
        self.text = String::new();
        self.owner = None;
        self.axis = None;
        self.relative = false;
    }

    /// Recompute the relative flag from the buffer.
    pub fn reparse(&mut self)
        ensures
            final(self).relative == spec_is_relative(old(self).text@),
            final(self).active == old(self).active,
            final(self).text@ == old(self).text@,
            final(self).owner == old(self).owner,
            final(self).axis == old(self).axis,
    {
        self.relative = is_relative(self.text.as_str());
    }

    /// Start entry with a drag while a numeric starter is typed: the
    /// Move tool's drag first, then Scale's, then Rotate's. Returns whether
    /// entry started; an active entry is left alone.
    pub fn detect_numeric_input_start(
        &mut self,
        move_dragging: bool,
        move_axis: Option<Axis3d>,
        scale_dragging: bool,
        scale_axis: Option<Axis3d>,
        rotate_dragging: bool,
        rotate_axis: Option<Axis3d>,
        typed: &Vec<char>,
    ) -> (r: bool)
        ensures
            r == (!old(self).active && (move_dragging || scale_dragging || rotate_dragging)
                && exists|i: int| 0 <= i < typed@.len() && is_starter(#[trigger] typed@[i])),
            !r ==> final(self).active == old(self).active && final(self).text@ == old(self).text@
                && final(self).owner == old(self).owner && final(self).axis == old(self).axis
                && final(self).relative == old(self).relative,
            r ==> final(self).active && final(self).text@ == Seq::<char>::empty() && !final(self).relative,
            r ==> (final(self).owner, final(self).axis) == if move_dragging {
                (Some(NumericInputOwner::Move), move_axis)
            } else if scale_dragging {
                (Some(NumericInputOwner::Scale), scale_axis)
            } else {
                (Some(NumericInputOwner::Rotate), rotate_axis)
            },
    {
        if self.active {
            return false;
        }
        let (owner, axis) = if move_dragging {
            (NumericInputOwner::Move, move_axis)
        } else if scale_dragging {
            (NumericInputOwner::Scale, scale_axis)
        } else if rotate_dragging {
            (NumericInputOwner::Rotate, rotate_axis)
        } else {
            return false;
        };
        let mut starter = false;
        let mut i: usize = 0;
        while i < typed.len()
            invariant
                i <= typed@.len(),
                starter == exists|j: int| 0 <= j < i && is_starter(#[trigger] typed@[j]),
            decreases typed.len() - i,
        {
            let c = typed[i];
            if ('0' <= c && c <= '9') || c == '.' || c == '-' || c == '+' || c == '=' {
                starter = true;
            }
            i = i + 1;
        }
        if !starter {
            return false;
        }
        self.clear();
        self.active = true;
        self.owner = Some(owner);
        self.axis = axis;
        true
    }

    /// Consume a frame's keys while entry is active: digits, signs, dots,
    /// units and expression characters extend the buffer where accepted,
    /// Backspace removes the last character, Tab cycles the axis, Enter
    /// and Escape end the entry. When the buffer was edited the relative
    /// flag is recomputed and the outcome says so.
    pub fn handle_numeric_input_keys(&mut self, keys: &Vec<NumericKey>) -> (r: NumericKeysOutcome)
        ensures
            !old(self).active ==> r == (NumericKeysOutcome::Continue { dirty: false })
                && final(self).active == old(self).active && final(self).text@ == old(self).text@
                && final(self).owner == old(self).owner && final(self).axis == old(self).axis
                && final(self).relative == old(self).relative,
            old(self).active ==> ({
                let run = keys_run(old(self).text@, old(self).owner, old(self).axis, old(self).relative, keys@, false);
                &&& r == run.2
                &&& (r is Continue ==> {
                    &&& final(self).active
                    &&& final(self).text@ == run.0
                    &&& final(self).owner == old(self).owner
                    &&& final(self).axis == run.1
                    &&& final(self).relative == if r->dirty { spec_is_relative(run.0) } else { old(self).relative }
                })
                &&& (!(r is Continue) ==> final(self).is_clear())
            }),
    {
        if !self.active {
            return NumericKeysOutcome::Continue { dirty: false };
        }
        let ghost text0 = self.text@;
        let ghost axis0 = self.axis;
        let owner = self.owner;
        let relative = self.relative;
        let mut buf = chars_of(self.text.as_str());
        let mut axis = self.axis;
        let mut dirty = false;
        let mut i: usize = 0;
        proof {
            assert(keys@.skip(0) =~= keys@);
        }
        while i < keys.len()
            invariant
                i <= keys@.len(),
                old(self).active,
                text0 == old(self).text@,
                axis0 == old(self).axis,
                owner == old(self).owner,
                relative == old(self).relative,
                self.active,
                self.owner == owner,
                self.relative == relative,
                self.text@ == text0,
                self.axis == axis0,
                keys_run(buf@, owner, axis, relative, keys@.skip(i as int), dirty)
                    == keys_run(text0, owner, axis0, relative, keys@, false),
            decreases keys.len() - i,
        {
            let k = keys[i];
            proof {
                assert(keys@.skip(i as int)[0] == k);
                assert(keys@.skip(i as int).drop_first() =~= keys@.skip(i + 1));
            }
            match k {
                NumericKey::Enter => {
                    let out = NumericKeysOutcome::Entered { owner, axis, relative };
                    self.clear();
                    return out;
                },
                NumericKey::Escape => {
                    self.clear();
                    return NumericKeysOutcome::Escaped;
                },
                NumericKey::Backspace => {
                    if buf.len() > 0 {
                        let _ = buf.pop();
                    }
                    dirty = true;
                },
                NumericKey::Tab => {
                    axis = tab_axis(owner, axis);
                },
                NumericKey::Character(c) => {
                    if accepts_char(&buf, c) {
                        buf.push(c);
                        dirty = true;
                    }
                },
                NumericKey::Other => {},
            }
            i = i + 1;
        }
        proof {
            assert(keys@.skip(keys@.len() as int) =~= Seq::<NumericKey>::empty());
        }
        self.text = string_of(&buf);
        self.axis = axis;
        if dirty {
            self.reparse();
        }
        NumericKeysOutcome::Continue { dirty }
    }
}

/// The next axis on Tab.
fn tab_axis(owner: Option<NumericInputOwner>, axis: Option<Axis3d>) -> (r: Option<Axis3d>)
    ensures
        r == next_axis(owner, axis),
{
    match owner {
        Some(NumericInputOwner::Move) | Some(NumericInputOwner::Scale) => Some(
            match axis {
                Some(Axis3d::Y) => Axis3d::Z,
                Some(Axis3d::Z) => Axis3d::X,
                _ => Axis3d::Y,
            },
        ),
        _ => axis,
    }
}

/// Whether `c` is an ASCII letter.
fn is_ascii_alpha(c: char) -> (r: bool)
    ensures
        r == is_alpha(c),
{
    ('a' <= c && c <= 'z') || ('A' <= c && c <= 'Z')
}

/// Whether the buffer accepts the typed character.
fn accepts_char(t: &Vec<char>, c: char) -> (r: bool)
    ensures
        r == accepts(t@, c),
{
    let mut has_dot = false;
    let mut digit = false;
    let mut alpha = false;
    let mut i: usize = 0;
    while i < t.len()
        invariant
            i <= t@.len(),
            has_dot == (exists|j: int| 0 <= j < i && t@[j] == '.'),
            digit == (exists|j: int| 0 <= j < i && is_digit(#[trigger] t@[j])),
            alpha == (exists|j: int| 0 <= j < i && is_alpha(#[trigger] t@[j])),
        decreases t.len() - i,
    {
        let ch = t[i];
        if ch == '.' {
            has_dot = true;
        }
        if '0' <= ch && ch <= '9' {
            digit = true;
        }
        if is_ascii_alpha(ch) {
            alpha = true;
        }
        i = i + 1;
    }
    proof {
        if has_dot {
            let j = choose|j: int| 0 <= j < t@.len() && t@[j] == '.';
            assert(t@.contains('.'));
        }
        if t@.contains('.') {
            let j = choose|j: int| 0 <= j < t@.len() && t@[j] == '.';
            assert(0 <= j < i && t@[j] == '.');
        }
    }
    let at_start = t.len() == 0;
    let expr_mode = (t.len() > 0 && t[0] == '=') || (at_start && c == '=');
    if expr_mode {
        c == '=' || c == '+' || c == '-' || c == '*' || c == '/' || c == '^' || c == '(' || c == ')'
            || c == ',' || c == '.' || c == ' ' || c == '°' || ('0' <= c && c <= '9') || is_ascii_alpha(c)
    } else if c == '.' {
        !has_dot && !alpha
    } else if c == '-' || c == '+' || c == '=' {
        at_start
    } else if c == ' ' {
        digit
    } else if '0' <= c && c <= '9' {
        !alpha
    } else if is_ascii_alpha(c) || c == '°' {
        digit
    } else {
        false
    }
}

/// Whether a buffer is a relative entry: it starts with `+` or `-+`.
pub fn is_relative(text: &str) -> (r: bool)
    ensures
        r == spec_is_relative(text@),
{
    let t = chars_of(text);
    (t.len() >= 1 && t[0] == '+') || (t.len() >= 2 && t[0] == '-' && t[1] == '+')
}

/// The unit a suffix names; anything else is unknown. Studs and metres
/// are the same unit.
#[derive(Debug, Clone, Copy, PartialEq, Eq, Structural)]
pub enum UnitKind {
    /// No suffix, `m`, `stud` or `studs`.
    Stud,
    Centimetre,
    Millimetre,
    Kilometre,
    Inch,
    Foot,
    Yard,
    Degree,
    Radian,
    Unknown,
}

/// The unit a (lower-case) suffix names.
pub open spec fn spec_unit_kind(u: Seq<char>) -> UnitKind {
    if u == ""@ || u == "m"@ || u == "stud"@ || u == "studs"@ {
        UnitKind::Stud
    } else if u == "cm"@ {
        UnitKind::Centimetre
    } else if u == "mm"@ {
        UnitKind::Millimetre
    } else if u == "km"@ {
        UnitKind::Kilometre
    } else if u == "in"@ || u == "inch"@ || u == "inches"@ {
        UnitKind::Inch
    } else if u == "ft"@ || u == "foot"@ || u == "feet"@ {
        UnitKind::Foot
    } else if u == "yd"@ || u == "yard"@ || u == "yards"@ {
        UnitKind::Yard
    } else if u == "deg"@ || u == "°"@ || u == "degree"@ || u == "degrees"@ {
        UnitKind::Degree
    } else if u == "rad"@ || u == "radian"@ || u == "radians"@ {
        UnitKind::Radian
    } else {
        UnitKind::Unknown
    }
}

/// The unit a (lower-case) suffix names.
pub fn unit_kind(u: &str) -> (r: UnitKind)
    ensures
        r == spec_unit_kind(u@),
{
    if str_eq(u, "") || str_eq(u, "m") || str_eq(u, "stud") || str_eq(u, "studs") {
        UnitKind::Stud
    } else if str_eq(u, "cm") {
        UnitKind::Centimetre
    } else if str_eq(u, "mm") {
        UnitKind::Millimetre
    } else if str_eq(u, "km") {
        UnitKind::Kilometre
    } else if str_eq(u, "in") || str_eq(u, "inch") || str_eq(u, "inches") {
        UnitKind::Inch
    } else if str_eq(u, "ft") || str_eq(u, "foot") || str_eq(u, "feet") {
        UnitKind::Foot
    } else if str_eq(u, "yd") || str_eq(u, "yard") || str_eq(u, "yards") {
        UnitKind::Yard
    } else if str_eq(u, "deg") || str_eq(u, "°") || str_eq(u, "degree") || str_eq(u, "degrees") {
        UnitKind::Degree
    } else if str_eq(u, "rad") || str_eq(u, "radian") || str_eq(u, "radians") {
        UnitKind::Radian
    } else {
        UnitKind::Unknown
    }
}

/// A length unit's size in micrometres; angles and unknown units have
/// none. A stud is a metre.
pub open spec fn unit_micrometres(k: UnitKind) -> Option<nat> {
    match k {
        UnitKind::Stud => Some(1_000_000),
        UnitKind::Centimetre => Some(10_000),
        UnitKind::Millimetre => Some(1_000),
        UnitKind::Kilometre => Some(1_000_000_000),
        UnitKind::Inch => Some(25_400),
        UnitKind::Foot => Some(304_800),
        UnitKind::Yard => Some(914_400),
        _ => None,
    }
}

/// The metre scaled by an SI prefix letter: centi, milli, kilo.
pub open spec fn si_prefix_micrometres(p: char) -> Option<nat> {
    if p == 'c' {
        Some(10_000)
    } else if p == 'm' {
        Some(1_000)
    } else if p == 'k' {
        Some(1_000_000_000)
    } else {
        None
    }
}

proof fn lemma_unit_literals()
    ensures
        ""@.len() == 0,
        "m"@.len() == 1,
        "stud"@.len() == 4,
        "studs"@.len() == 5,
        "cm"@.len() == 2 && "cm"@[0] == 'c' && "cm"@[1] == 'm',
        "mm"@.len() == 2 && "mm"@[0] == 'm' && "mm"@[1] == 'm',
        "km"@.len() == 2 && "km"@[0] == 'k' && "km"@[1] == 'm',
{
    reveal_strlit("");
    reveal_strlit("m");
    reveal_strlit("stud");
    reveal_strlit("studs");
    reveal_strlit("cm");
    reveal_strlit("mm");
    reveal_strlit("km");
}

/// A two-letter metric suffix means what its SI prefix says: `cm` is a
/// hundredth of a metre, `mm` a thousandth, `km` a thousand metres; so a
/// typed `12mm` is a tenth of `12cm`. And a bare number, `m`, `stud` and
/// `studs` are all metres.
pub proof fn law_metric_suffixes_follow_their_prefix(p: char)
    ensures
        si_prefix_micrometres(p) is Some ==> unit_micrometres(spec_unit_kind(seq![p, 'm'])) == si_prefix_micrometres(p),
        unit_micrometres(spec_unit_kind(""@)) == Some(1_000_000nat),
        unit_micrometres(spec_unit_kind("m"@)) == Some(1_000_000nat),
{
    lemma_unit_literals();
    let u = seq![p, 'm'];
    if si_prefix_micrometres(p) is Some {
        if p == 'c' {
            assert(u =~= "cm"@);
        } else if p == 'm' {
            assert(u =~= "mm"@);
            assert(u != "cm"@);
        } else {
            assert(u =~= "km"@);
            assert(u != "cm"@);
            assert(u != "mm"@);
        }
    }
}

proof fn lemma_all_unit_literals()
    ensures
        ""@.len() == 0,
        "m"@.len() == 1 && "m"@[0] == 'm',
        "stud"@.len() == 4 && "stud"@[0] == 's',
        "studs"@.len() == 5 && "studs"@[0] == 's',
        "cm"@.len() == 2 && "cm"@[0] == 'c',
        "mm"@.len() == 2 && "mm"@[0] == 'm',
        "km"@.len() == 2 && "km"@[0] == 'k',
        "in"@.len() == 2 && "in"@[0] == 'i',
        "inch"@.len() == 4 && "inch"@[0] == 'i',
        "inches"@.len() == 6 && "inches"@[0] == 'i',
        "ft"@.len() == 2 && "ft"@[0] == 'f',
        "foot"@.len() == 4 && "foot"@[0] == 'f' && "foot"@[1] == 'o',
        "feet"@.len() == 4 && "feet"@[0] == 'f' && "feet"@[1] == 'e',
        "yd"@.len() == 2 && "yd"@[0] == 'y',
        "yard"@.len() == 4 && "yard"@[0] == 'y',
        "yards"@.len() == 5 && "yards"@[0] == 'y',
        "deg"@.len() == 3 && "deg"@[0] == 'd',
        "°"@.len() == 1 && "°"@[0] == '°',
        "degree"@.len() == 6 && "degree"@[0] == 'd',
        "degrees"@.len() == 7 && "degrees"@[0] == 'd',
        "rad"@.len() == 3 && "rad"@[0] == 'r',
        "radian"@.len() == 6 && "radian"@[0] == 'r',
        "radians"@.len() == 7 && "radians"@[0] == 'r',
{
    reveal_strlit("");
    reveal_strlit("m");
    reveal_strlit("stud");
    reveal_strlit("studs");
    reveal_strlit("cm");
    reveal_strlit("mm");
    reveal_strlit("km");
    reveal_strlit("in");
    reveal_strlit("inch");
    reveal_strlit("inches");
    reveal_strlit("ft");
    reveal_strlit("foot");
    reveal_strlit("feet");
    reveal_strlit("yd");
    reveal_strlit("yard");
    reveal_strlit("yards");
    reveal_strlit("deg");
    reveal_strlit("°");
    reveal_strlit("degree");
    reveal_strlit("degrees");
    reveal_strlit("rad");
    reveal_strlit("radian");
    reveal_strlit("radians");
}

/// The imperial suffixes, abbreviated or spelt out, mean the imperial
/// lengths: an inch is 25.4 mm, a foot twelve inches, a yard three feet;
/// and the angle suffixes are no length at all.
pub proof fn law_imperial_and_angle_suffixes()
    ensures
        unit_micrometres(spec_unit_kind("in"@)) == Some(25_400nat),
        unit_micrometres(spec_unit_kind("inch"@)) == Some(25_400nat),
        unit_micrometres(spec_unit_kind("inches"@)) == Some(25_400nat),
        unit_micrometres(spec_unit_kind("ft"@)) == Some(12 * 25_400nat),
        unit_micrometres(spec_unit_kind("foot"@)) == Some(12 * 25_400nat),
        unit_micrometres(spec_unit_kind("feet"@)) == Some(12 * 25_400nat),
        unit_micrometres(spec_unit_kind("yd"@)) == Some(3 * 12 * 25_400nat),
        unit_micrometres(spec_unit_kind("yard"@)) == Some(3 * 12 * 25_400nat),
        unit_micrometres(spec_unit_kind("yards"@)) == Some(3 * 12 * 25_400nat),
        unit_micrometres(spec_unit_kind("stud"@)) == Some(1_000_000nat),
        unit_micrometres(spec_unit_kind("studs"@)) == Some(1_000_000nat),
        spec_unit_kind("deg"@) == UnitKind::Degree && spec_unit_kind("°"@) == UnitKind::Degree,
        spec_unit_kind("degree"@) == UnitKind::Degree && spec_unit_kind("degrees"@) == UnitKind::Degree,
        spec_unit_kind("rad"@) == UnitKind::Radian && spec_unit_kind("radian"@) == UnitKind::Radian,
        spec_unit_kind("radians"@) == UnitKind::Radian,
{
    lemma_all_unit_literals();
}

/// A character of the numeric part: a digit, `.`, `-`, `e` or `E`.
pub open spec fn is_number_char(c: char) -> bool {
    is_digit(c) || c == '.' || c == '-' || c == 'e' || c == 'E'
}

/// `s` without its leading `+` signs.
pub open spec fn strip_plus(s: Seq<char>) -> Seq<char>
    decreases s.len(),
{
    if s.len() > 0 && s[0] == '+' {
        strip_plus(s.drop_first())
    } else {
        s
    }
}

/// `s` without its whitespace characters.
pub open spec fn drop_ws(s: Seq<char>) -> Seq<char>
    decreases s.len(),
{
    if s.len() == 0 {
        s
    } else if is_ws(s.last()) {
        drop_ws(s.drop_last())
    } else {
        drop_ws(s.drop_last()).push(s.last())
    }
}

/// What a typed buffer holds before its number is read.
#[derive(Debug, Clone, PartialEq, Eq)]
pub enum NumericBuffer {
    /// Nothing to read yet: empty, blank, or only a sign or dot.
    Blank,
    /// An expression: the buffer after its leading `=`.
    Expression(String),
    /// A number and its (lower-cased, whitespace-free) unit suffix.
    Number { number: String, unit: String },
}

/// How a buffer splits: blank, or trimmed and starting with `=` an
/// expression, else, without its leading `+` signs, the longest prefix of
/// number characters and the rest as a unit with whitespace removed and
/// ASCII letters lower-cased.
pub open spec fn buffer_is(text: Seq<char>, b: NumericBuffer) -> bool {
    let tr = trim(text);
    let t = strip_plus(tr);
    if tr.len() == 0 {
        b is Blank
    } else if tr[0] == '=' {
        b matches NumericBuffer::Expression(e) && e@ == tr.drop_first()
    } else if t.len() == 0 || t == "-"@ || t == "."@ || t == "-."@ {
        b is Blank
    } else {
        b matches NumericBuffer::Number { number, unit } && {
            let k = number@.len() as int;
            &&& k <= t.len()
            &&& number@ == t.subrange(0, k)
            &&& forall|j: int| 0 <= j < k ==> is_number_char(#[trigger] t[j])
            &&& (k == t.len() || !is_number_char(t[k]))
            &&& unit@ == ascii_lower_seq(drop_ws(t.subrange(k, t.len() as int)))
        }
    }
}

proof fn lemma_strip_plus_skip(s: Seq<char>, k: int)
    requires
        0 <= k <= s.len(),
        forall|j: int| 0 <= j < k ==> #[trigger] s[j] == '+',
    ensures
        strip_plus(s) == strip_plus(s.subrange(k, s.len() as int)),
    decreases k,
{
    if k > 0 {
        assert(s.drop_first().subrange(k - 1, s.drop_first().len() as int) =~= s.subrange(k, s.len() as int));
        lemma_strip_plus_skip(s.drop_first(), k - 1);
    } else {
        assert(s.subrange(0, s.len() as int) =~= s);
    }
}

/// Split a typed buffer into what its value is read from.
pub fn split_numeric_buffer(text: &str) -> (r: NumericBuffer)
    ensures
        buffer_is(text@, r),
{
    let all = chars_of(text);
    let tr = trimmed(&all);
    if tr.len() == 0 {
        return NumericBuffer::Blank;
    }
    if tr[0] == '=' {
        let mut e: Vec<char> = Vec::new();
        let mut i: usize = 1;
        while i < tr.len()
            invariant
                1 <= i <= tr@.len(),
                e@ == tr@.subrange(1, i as int),
            decreases tr.len() - i,
        {
            e.push(tr[i]);
            i = i + 1;
        }
        proof {
            assert(e@ =~= tr@.drop_first());
        }
        return NumericBuffer::Expression(string_of(&e));
    }
    let mut a: usize = 0;
    while a < tr.len() && tr[a] == '+'
        invariant
            a <= tr@.len(),
            forall|j: int| 0 <= j < a ==> #[trigger] tr@[j] == '+',
        decreases tr.len() - a,
    {
        a = a + 1;
    }
    proof {
        lemma_strip_plus_skip(tr@, a as int);
        assert(strip_plus(tr@.subrange(a as int, tr@.len() as int)) == tr@.subrange(a as int, tr@.len() as int));
    }
    let ghost t = tr@.subrange(a as int, tr@.len() as int);
    let n = tr.len();
    let len = n - a;
    if len == 0 || (len == 1 && (tr[a] == '-' || tr[a] == '.')) || (len == 2 && tr[a] == '-' && tr[a + 1] == '.') {
        proof {
            reveal_strlit("-");
            reveal_strlit(".");
            reveal_strlit("-.");
            if len == 1 {
                if tr[a as int] == '-' {
                    assert(t =~= "-"@);
                } else {
                    assert(t =~= "."@);
                }
            } else if len == 2 {
                assert(t =~= "-."@);
            }
        }
        return NumericBuffer::Blank;
    }
    proof {
        reveal_strlit("-");
        reveal_strlit(".");
        reveal_strlit("-.");
        assert(t != "-"@ && t != "."@ && t != "-."@) by {
            if t == "-"@ {
                assert(t[0] == '-' && len == 1);
            }
            if t == "."@ {
                assert(t[0] == '.' && len == 1);
            }
            if t == "-."@ {
                assert(t[0] == '-' && t[1] == '.' && len == 2);
            }
        }
    }
    let mut number: Vec<char> = Vec::new();
    let mut k: usize = a;
    while k < n && (('0' <= tr[k] && tr[k] <= '9') || tr[k] == '.' || tr[k] == '-' || tr[k] == 'e' || tr[k] == 'E')
        invariant
            a <= k <= n,
            n == tr@.len(),
            t == tr@.subrange(a as int, n as int),
            number@ == t.subrange(0, k - a),
            forall|j: int| 0 <= j < k - a ==> is_number_char(#[trigger] t[j]),
        decreases n - k,
    {
        number.push(tr[k]);
        k = k + 1;
    }
    let mut unit: Vec<char> = Vec::new();
    let mut j: usize = k;
    while j < n
        invariant
            a <= k <= j <= n,
            n == tr@.len(),
            t == tr@.subrange(a as int, n as int),
            unit@ == ascii_lower_seq(drop_ws(t.subrange(k - a, j - a))),
        decreases n - j,
    {
        let c = tr[j];
        proof {
            assert(t.subrange(k - a, j + 1 - a).drop_last() =~= t.subrange(k - a, j - a));
            assert(t.subrange(k - a, j + 1 - a).last() == c);
        }
        if !is_whitespace(c) {
            unit.push(to_ascii_lower(c));
            proof {
                assert(unit@ =~= ascii_lower_seq(drop_ws(t.subrange(k - a, j + 1 - a))));
            }
        }
        j = j + 1;
    }
    NumericBuffer::Number { number: string_of(&number), unit: string_of(&unit) }
}

/// Once a plain-number buffer holds a letter (a unit has begun), it
/// accepts no further digit or dot.
pub proof fn law_no_digit_after_unit(t: Seq<char>, c: char)
    requires
        t.len() > 0,
        t[0] != '=',
        has_alpha(t),
    ensures
        (is_digit(c) || c == '.') ==> !accepts(t, c),
{
}

/// Tab on a Move or Scale entry visits every axis within three presses and
/// is back where it started after three.
pub proof fn law_tab_cycles_axes(owner: Option<NumericInputOwner>, a: Axis3d)
    requires
        owner == Some(NumericInputOwner::Move) || owner == Some(NumericInputOwner::Scale),
    ensures
        next_axis(owner, next_axis(owner, next_axis(owner, Some(a)))) == Some(a),
        next_axis(owner, Some(a)) != Some(a),
{
}

} // verus!
