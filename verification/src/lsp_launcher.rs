//! The decisions of the LSP child-process launcher, frame by frame: wait
//! for a Universe, keep a child that serves the current Universe, restart
//! it when the Universe changes, and give up for good once the binary is
//! missing or fails to spawn. Finding the Universe and the binary, and
//! spawning, are the caller's; the launcher sees their outcomes.

use vstd::prelude::*;
use crate::text::str_eq;

verus! {

/// What the launcher remembers between frames: the Universe its running
/// child serves, if a child runs, and whether the binary was given up on.
pub struct LspLauncherState {
    /// The Universe root the running child serves.
    pub running_for: Option<String>,
    pub binary_missing: bool,
}

/// What a frame asks of the caller.
#[derive(Debug, Clone, Copy, PartialEq, Eq, Structural)]
pub enum LspFrame {
    /// Nothing to do.
    Idle,
    /// No Universe is known yet; note that the launcher waits.
    WaitForUniverse,
    /// Resolve the binary and spawn a child for the Universe; when
    /// `stop_first`, the running child (and its port file) go first.
    Launch { stop_first: bool },
}

/// A frame's decision: nothing once the binary was given up on; a wait
/// without a Universe; nothing while the running child already serves this
/// Universe; otherwise a launch, stopping a child that serves another.
pub open spec fn spec_lsp_frame(s: LspLauncherState, universe: Option<Seq<char>>) -> (LspLauncherState, LspFrame) {
    if s.binary_missing {
        (s, LspFrame::Idle)
    } else {
        match universe {
            None => (s, LspFrame::WaitForUniverse),
            Some(u) => if s.running_for matches Some(r) && r@ == u {
                (s, LspFrame::Idle)
            } else {
                (
                    LspLauncherState { running_for: None, ..s },
                    LspFrame::Launch { stop_first: s.running_for is Some },
                )
            },
        }
    }
}

impl LspLauncherState {
    /// No child, binary not given up on.
    pub fn new() -> (r: Self)
        ensures
            r.running_for is None,
            !r.binary_missing,
    {
        LspLauncherState { running_for: None, binary_missing: false }
    }

    /// Decide a frame, given the Universe the current Space belongs to.
    pub fn frame(&mut self, universe: Option<&str>) -> (r: LspFrame)
        ensures
            (*final(self), r) == spec_lsp_frame(*old(self), match universe { Some(u) => Some(u@), None => None }),
    {
        if self.binary_missing {
            return LspFrame::Idle;
        }
        match universe {
            None => LspFrame::WaitForUniverse,
            Some(u) => {
                let same = match &self.running_for {
                    Some(r) => str_eq(r.as_str(), u),
                    None => false,
                };
                if same {
                    LspFrame::Idle
                } else {
                    let stop_first = self.running_for.is_some();
                    self.running_for = None;
                    LspFrame::Launch { stop_first }
                }
            },
        }
    }

    /// The outcome of a launch for `universe`: a spawned child now serves
    /// it; a missing binary or a failed spawn gives the launcher up for
    /// good.
    pub fn launched(&mut self, universe: String, spawned: bool)
        ensures
            spawned ==> final(self).running_for == Some(universe) && final(self).binary_missing == old(self).binary_missing,
            !spawned ==> final(self).running_for == old(self).running_for && final(self).binary_missing,
    {
        if spawned {
            self.running_for = Some(universe);
        } else {
            self.binary_missing = true;
        }
    }
}

/// Once given up on, the launcher never launches again, whatever the
/// frames bring.
pub proof fn law_given_up_stays_idle(s: LspLauncherState, universe: Option<Seq<char>>)
    requires
        s.binary_missing,
    ensures
        spec_lsp_frame(s, universe).1 == LspFrame::Idle,
        spec_lsp_frame(s, universe).0 == s,
{
}

/// A child that serves the current Universe is kept; a switch to another
/// Universe stops it before the next launch.
pub proof fn law_one_child_per_universe(s: LspLauncherState, u: Seq<char>, v: Seq<char>)
    requires
        !s.binary_missing,
        s.running_for matches Some(r) && r@ == u,
        u != v,
    ensures
        spec_lsp_frame(s, Some(u)).1 == LspFrame::Idle,
        spec_lsp_frame(s, Some(v)).1 == (LspFrame::Launch { stop_first: true }),
        spec_lsp_frame(s, Some(v)).0.running_for is None,
{
}

} // verus!
