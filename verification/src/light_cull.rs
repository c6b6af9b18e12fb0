//! The light-culling policy: when the cull re-runs, which of the lights
//! (ranked nearest first) keep their shadows and their place among the
//! active lights, and the hysteresis that dims a light only once it leaves
//! the active set or passes the outer radius and relights it only once it
//! is back in the set and inside the inner radius. Distances are compared
//! by the caller; the policy sees the outcomes.

use vstd::prelude::*;

verus! {

/// The nearest this many shadow-casting lights keep their shadows.
pub const SHADOW_LIGHT_BUDGET: usize = 32;

/// The nearest this many lights keep their authored intensity.
pub const ACTIVE_LIGHT_BUDGET: usize = 64;

/// A still camera still re-culls at least this often, in frames.
pub const FORCE_INTERVAL_FRAMES: u32 = 30;

/// The cull's cadence counter: frames since it last ran.
pub struct CullCadence {
    pub frames_since_run: u32,
}

impl CullCadence {
    /// Count this frame and decide whether the cull runs: on the first run,
    /// when the camera moved beyond the dead zone, or once the counter
    /// reaches the forced interval; running resets the counter.
    pub fn should_run(&mut self, first_run: bool, moved_enough: bool) -> (r: bool)
        ensures
            ({
                let counted = if old(self).frames_since_run == u32::MAX { u32::MAX } else { (old(self).frames_since_run + 1) as u32 };
                &&& r == (first_run || moved_enough || counted >= FORCE_INTERVAL_FRAMES)
                &&& final(self).frames_since_run == if r { 0 } else { counted }
            }),
    {
        self.frames_since_run = self.frames_since_run.saturating_add(1);
        if !(first_run || moved_enough) && self.frames_since_run < FORCE_INTERVAL_FRAMES {
            return false;
        }
        self.frames_since_run = 0;
        true
    }
}

/// A light class's two switches, as read from its component.
#[derive(Debug, Clone, Copy, PartialEq, Eq, Structural)]
pub struct LightSwitches {
    /// The light was authored to cast shadows.
    pub shadows: bool,
    /// The light is switched on.
    pub enabled: bool,
}

/// The authored shadow flag of a point-emitting light, when it can be known
/// without guessing: from its point-light class, else its surface-light
/// class, else a flag stashed earlier. A light switched off never casts.
pub fn authored_point_shadows(class: Option<LightSwitches>, surface: Option<LightSwitches>, stash: Option<bool>) -> (r: Option<bool>)
    ensures
        r == match class {
            Some(c) => Some(c.shadows && c.enabled),
            None => match surface {
                Some(s) => Some(s.shadows && s.enabled),
                None => stash,
            },
        },
{
    match class {
        Some(c) => Some(c.shadows && c.enabled),
        None => match surface {
            Some(s) => Some(s.shadows && s.enabled),
            None => stash,
        },
    }
}

/// The authored shadow flag of a spot light: from its class, else a flag
/// stashed earlier.
pub fn authored_spot_shadows(class: Option<LightSwitches>, stash: Option<bool>) -> (r: Option<bool>)
    ensures
        r == match class {
            Some(c) => Some(c.shadows && c.enabled),
            None => stash,
        },
{
    match class {
        Some(c) => Some(c.shadows && c.enabled),
        None => stash,
    }
}

/// Whether a light is switched on: only a light class can switch it off,
/// and every class it has must be on.
pub fn light_enabled(point: Option<bool>, spot: Option<bool>, surface: Option<bool>) -> (r: bool)
    ensures
        r == (point != Some(false) && spot != Some(false) && surface != Some(false)),
{
    let p = match point {
        Some(e) => e,
        None => true,
    };
    let s = match spot {
        Some(e) => e,
        None => true,
    };
    let f = match surface {
        Some(e) => e,
        None => true,
    };
    p && s && f
}

/// What the budgets give a light at one rank.
#[derive(Debug, Clone, Copy, PartialEq, Eq, Structural)]
pub struct LightBudget {
    /// It casts shadows: it was authored to, and fewer than
    /// `SHADOW_LIGHT_BUDGET` nearer lights were.
    pub want_shadows: bool,
    /// It is among the `ACTIVE_LIGHT_BUDGET` nearest lights.
    pub within_active_rank: bool,
}

/// How many of the first `n` lights were authored with shadows.
pub open spec fn shadow_casters_before(authored: Seq<bool>, n: int) -> nat
    decreases n,
{
    if n <= 0 {
        0
    } else {
        shadow_casters_before(authored, n - 1) + if authored[n - 1] { 1nat } else { 0nat }
    }
}

/// The budgets of the light at `rank`, lights ranked nearest first.
pub open spec fn spec_budget(authored: Seq<bool>, rank: int) -> LightBudget {
    LightBudget {
        want_shadows: authored[rank] && shadow_casters_before(authored, rank) < SHADOW_LIGHT_BUDGET,
        within_active_rank: rank < ACTIVE_LIGHT_BUDGET,
    }
}

proof fn lemma_casters_bound(authored: Seq<bool>, n: int)
    requires
        0 <= n <= authored.len(),
    ensures
        shadow_casters_before(authored, n) <= n,
    decreases n,
{
    if n > 0 {
        lemma_casters_bound(authored, n - 1);
    }
}

/// The budgets of every light, ranked nearest first, given for each
/// whether it was authored to cast shadows.
pub fn light_budgets(authored: &Vec<bool>) -> (r: Vec<LightBudget>)
    ensures
        r@.len() == authored@.len(),
        forall|i: int| 0 <= i < r@.len() ==> #[trigger] r@[i] == spec_budget(authored@, i),
{
    let mut out: Vec<LightBudget> = Vec::new();
    let mut shadow_rank: usize = 0;
    let mut rank: usize = 0;
    while rank < authored.len()
        invariant
            rank <= authored@.len(),
            out@.len() == rank,
            shadow_rank as nat == shadow_casters_before(authored@, rank as int),
            forall|i: int| 0 <= i < rank ==> #[trigger] out@[i] == spec_budget(authored@, i),
        decreases authored.len() - rank,
    {
        proof {
            lemma_casters_bound(authored@, rank as int);
        }
        let a = authored[rank];
        let want_shadows = a && shadow_rank < SHADOW_LIGHT_BUDGET;
        if a {
            shadow_rank = shadow_rank + 1;
        }
        out.push(LightBudget { want_shadows, within_active_rank: rank < ACTIVE_LIGHT_BUDGET });
        rank = rank + 1;
    }
    out
}

/// Only lights authored with shadows cast them, and never more than the
/// shadow budget of them.
pub proof fn law_shadow_budget_holds(authored: Seq<bool>, n: int)
    requires
        0 <= n <= authored.len(),
    ensures
        forall|i: int| 0 <= i < n ==> (#[trigger] spec_budget(authored, i)).want_shadows ==> authored[i],
        wanting_shadows(authored, n) <= SHADOW_LIGHT_BUDGET,
    decreases n,
{
    if n > 0 {
        law_shadow_budget_holds(authored, n - 1);
        lemma_wanting_le_casters(authored, n);
    }
}

/// How many of the first `n` lights cast shadows under the budget.
pub open spec fn wanting_shadows(authored: Seq<bool>, n: int) -> nat
    decreases n,
{
    if n <= 0 {
        0
    } else {
        wanting_shadows(authored, n - 1) + if spec_budget(authored, n - 1).want_shadows { 1nat } else { 0nat }
    }
}

proof fn lemma_wanting_le_casters(authored: Seq<bool>, n: int)
    requires
        0 <= n <= authored.len(),
    ensures
        wanting_shadows(authored, n) <= shadow_casters_before(authored, n),
        wanting_shadows(authored, n) <= SHADOW_LIGHT_BUDGET,
    decreases n,
{
    if n > 0 {
        lemma_wanting_le_casters(authored, n - 1);
        if spec_budget(authored, n - 1).want_shadows {
            assert(shadow_casters_before(authored, n - 1) < SHADOW_LIGHT_BUDGET);
        }
    }
}

/// What the hysteresis does to a light's intensity.
#[derive(Debug, Clone, Copy, PartialEq, Eq, Structural)]
pub enum IntensityChange {
    /// Keep the live intensity.
    Hold,
    /// Relight to the authored intensity.
    Restore,
    /// Dim to zero; `stash` says the authored intensity must be stashed
    /// first (it was never dimmed before).
    Dim { stash: bool },
}

/// The hysteresis: a dimmed light relights only when it is in the active
/// set and inside the inner radius; a lit light dims only when it left the
/// active set or passed the outer radius; between the two it holds.
pub open spec fn spec_intensity_change(
    currently_off: bool,
    has_stash: bool,
    within_active_rank: bool,
    inside_on_radius: bool,
    beyond_off_radius: bool,
) -> IntensityChange {
    if currently_off {
        if within_active_rank && inside_on_radius { IntensityChange::Restore } else { IntensityChange::Hold }
    } else if !within_active_rank || beyond_off_radius {
        IntensityChange::Dim { stash: !has_stash }
    } else {
        IntensityChange::Hold
    }
}

/// Decide a light's shadows and intensity change: shadows follow the
/// budget; the intensity follows the hysteresis.
pub fn decide_light_policy(
    currently_off: bool,
    has_stash: bool,
    want_shadows: bool,
    within_active_rank: bool,
    inside_on_radius: bool,
    beyond_off_radius: bool,
) -> (r: (bool, IntensityChange))
    ensures
        r.0 == want_shadows,
        r.1 == spec_intensity_change(currently_off, has_stash, within_active_rank, inside_on_radius, beyond_off_radius),
{
    let change = if currently_off {
        if within_active_rank && inside_on_radius {
            IntensityChange::Restore
        } else {
            IntensityChange::Hold
        }
    } else if !within_active_rank || beyond_off_radius {
        IntensityChange::Dim { stash: !has_stash }
    } else {
        IntensityChange::Hold
    };
    (want_shadows, change)
}

/// No flicker in the dead zone: a light in the active set, between the two
/// radii, keeps whatever state it is in; and the authored intensity is
/// stashed only on a light's first dimming.
pub proof fn law_hysteresis_dead_zone(currently_off: bool, has_stash: bool)
    ensures
        spec_intensity_change(currently_off, has_stash, true, false, false) == IntensityChange::Hold,
        spec_intensity_change(false, true, false, false, false) == (IntensityChange::Dim { stash: false }),
        spec_intensity_change(false, false, false, false, false) == (IntensityChange::Dim { stash: true }),
{
}

/// What the load-time backstop does to one light.
#[derive(Debug, Clone, Copy, PartialEq, Eq, Structural)]
pub enum ShadowCut {
    /// Left as it is.
    Keep,
    /// Its shadows are turned off; `stash` when its authored flag cannot be
    /// read from its class, so `true` is stashed first and a later cull
    /// does not take the cut for an authored `false`.
    Cut { stash: bool },
}

/// Whether each light casts shadows now, in visit order.
pub open spec fn casting_of(lights: Seq<(bool, bool)>) -> Seq<bool> {
    lights.map_values(|l: (bool, bool)| l.0)
}

/// While a Space is loading, a light casting shadows after the first
/// `SHADOW_LIGHT_BUDGET` casters visited is cut; every other light, and
/// every light once loading is over, is kept.
pub open spec fn spec_shadow_cut(load_active: bool, lights: Seq<(bool, bool)>, i: int) -> ShadowCut {
    if load_active && lights[i].0 && shadow_casters_before(casting_of(lights), i) >= SHADOW_LIGHT_BUDGET {
        ShadowCut::Cut { stash: !lights[i].1 }
    } else {
        ShadowCut::Keep
    }
}

/// The load-time shadow backstop: for the point and spot lights in visit
/// order, each given as whether it casts shadows now and whether its
/// authored flag can be read from its class (or a stash), what happens to
/// it. No distance ranking: the first casters visited keep their shadows.
pub fn enforce_shadow_budget(load_active: bool, lights: &Vec<(bool, bool)>) -> (r: Vec<ShadowCut>)
    ensures
        r@.len() == lights@.len(),
        forall|i: int| 0 <= i < r@.len() ==> #[trigger] r@[i] == spec_shadow_cut(load_active, lights@, i),
{
    let ghost casts = casting_of(lights@);
    let mut out: Vec<ShadowCut> = Vec::new();
    let mut kept: usize = 0;
    let mut i: usize = 0;
    while i < lights.len()
        invariant
            i <= lights@.len(),
            out@.len() == i,
            casts == casting_of(lights@),
            kept as nat == if shadow_casters_before(casts, i as int) < SHADOW_LIGHT_BUDGET {
                shadow_casters_before(casts, i as int)
            } else {
                SHADOW_LIGHT_BUDGET as nat
            },
            forall|j: int| 0 <= j < i ==> #[trigger] out@[j] == spec_shadow_cut(load_active, lights@, j),
        decreases lights.len() - i,
    {
        let (casting, known) = lights[i];
        assert(casts[i as int] == casting);
        let cut = if casting {
            if kept < SHADOW_LIGHT_BUDGET {
                kept = kept + 1;
                ShadowCut::Keep
            } else if load_active {
                ShadowCut::Cut { stash: !known }
            } else {
                ShadowCut::Keep
            }
        } else {
            ShadowCut::Keep
        };
        out.push(cut);
        i = i + 1;
    }
    out
}

/// How many lights still cast shadows among the first `n` after the
/// backstop.
pub open spec fn still_casting(load_active: bool, lights: Seq<(bool, bool)>, n: int) -> nat
    decreases n,
{
    if n <= 0 {
        0
    } else {
        still_casting(load_active, lights, n - 1)
            + if lights[n - 1].0 && spec_shadow_cut(load_active, lights, n - 1) == ShadowCut::Keep { 1nat } else { 0nat }
    }
}

/// While a Space loads, the backstop leaves at most `SHADOW_LIGHT_BUDGET`
/// lights casting shadows, and it only ever turns shadows off.
pub proof fn law_backstop_caps_shadow_casters(lights: Seq<(bool, bool)>, n: int)
    requires
        0 <= n <= lights.len(),
    ensures
        still_casting(true, lights, n) <= SHADOW_LIGHT_BUDGET,
        forall|i: int| 0 <= i < n ==> (#[trigger] spec_shadow_cut(true, lights, i) is Cut ==> lights[i].0),
    decreases n,
{
    let casts = casting_of(lights);
    lemma_still_casting_is_wanting(lights, n);
    law_shadow_budget_holds(casts, n);
}

proof fn lemma_still_casting_is_wanting(lights: Seq<(bool, bool)>, n: int)
    requires
        0 <= n <= lights.len(),
    ensures
        still_casting(true, lights, n) == wanting_shadows(casting_of(lights), n),
    decreases n,
{
    if n > 0 {
        lemma_still_casting_is_wanting(lights, n - 1);
        assert(casting_of(lights)[n - 1] == lights[n - 1].0);
    }
}

} // verus!
