//! Start-up details of the engine binary: the window title a Space gives,
//! which files in the log directory are engine logs, and which of them a
//! prune removes.

use vstd::prelude::*;
use crate::text::{chars_of, push_str, str_eq};

verus! {

/// How many engine logs survive a prune.
pub const ENGINE_LOG_RETAIN: usize = 5;

/// The Universe a Space belongs to: its parent folder, or, when that folder
/// is `Spaces`/`spaces`, the folder above it.
pub open spec fn spec_universe_name(parent: Option<Seq<char>>, grandparent: Option<Seq<char>>) -> Option<Seq<char>> {
    match parent {
        None => None,
        Some(p) => if p == "Spaces"@ || p == "spaces"@ { grandparent } else { Some(p) },
    }
}

/// The window title for a Space: `Universe > Space - Eustress Engine`, or
/// `Space - Eustress Engine` when no Universe is found; a Space without a
/// name is `Untitled`.
pub open spec fn spec_window_title(space: Option<Seq<char>>, parent: Option<Seq<char>>, grandparent: Option<Seq<char>>) -> Seq<char> {
    let s = match space {
        Some(n) => n,
        None => "Untitled"@,
    };
    match spec_universe_name(parent, grandparent) {
        Some(u) => u + " > "@ + s + " - Eustress Engine"@,
        None => s + " - Eustress Engine"@,
    }
}

/// The opt view of a string.
pub open spec fn opt_view(o: Option<&str>) -> Option<Seq<char>> {
    match o {
        Some(s) => Some(s@),
        None => None,
    }
}

/// The window title for a Space, from the names of its folder, its parent
/// folder and the folder above that (each absent where the path has none).
pub fn derive_window_title(space_name: Option<&str>, parent_name: Option<&str>, grandparent_name: Option<&str>) -> (r: String)
    ensures
        r@ == spec_window_title(opt_view(space_name), opt_view(parent_name), opt_view(grandparent_name)),
{
    let universe: Option<&str> = match parent_name {
        None => None,
        Some(p) => if str_eq(p, "Spaces") || str_eq(p, "spaces") {
            grandparent_name
        } else {
            Some(p)
        },
    };
    let mut t = String::new();
    if let Some(u) = universe {
        push_str(&mut t, u);
        push_str(&mut t, " > ");
    }
    match space_name {
        Some(n) => push_str(&mut t, n),
        None => push_str(&mut t, "Untitled"),
    }
    push_str(&mut t, " - Eustress Engine");
    proof {
        assert(opt_view(universe) == spec_universe_name(opt_view(parent_name), opt_view(grandparent_name)));
    }
    t
}

/// Whether a file in the log directory is an engine log: `engine-…​.log`.
pub open spec fn spec_is_engine_log(name: Seq<char>) -> bool {
    &&& name.len() >= "engine-"@.len()
    &&& name.subrange(0, "engine-"@.len() as int) == "engine-"@
    &&& name.len() >= ".log"@.len()
    &&& name.subrange(name.len() - ".log"@.len(), name.len() as int) == ".log"@
}

/// Whether a file in the log directory is an engine log.
pub fn is_engine_log_name(name: &str) -> (r: bool)
    ensures
        r == spec_is_engine_log(name@),
{
    proof {
        reveal_strlit("engine-");
        reveal_strlit(".log");
    }
    let v = chars_of(name);
    let p = chars_of("engine-");
    let q = chars_of(".log");
    if v.len() < p.len() || v.len() < q.len() {
        return false;
    }
    let mut i: usize = 0;
    while i < p.len()
        invariant
            i <= p@.len(),
            p@.len() <= v@.len(),
            v@ == name@,
            p@ == "engine-"@,
            forall|j: int| 0 <= j < i ==> v@[j] == p@[j],
        decreases p.len() - i,
    {
        if v[i] != p[i] {
            proof {
                assert(v@.subrange(0, p@.len() as int)[i as int] != p@[i as int]);
                assert(v@.subrange(0, p@.len() as int) != p@);
            }
            return false;
        }
        i = i + 1;
    }
    proof {
        assert(v@.subrange(0, p@.len() as int) =~= p@);
    }
    let n = v.len();
    let off = n - q.len();
    let mut k: usize = 0;
    while k < q.len()
        invariant
            k <= q@.len(),
            n == v@.len(),
            off + q@.len() == n,
            v@ == name@,
            q@ == ".log"@,
            v@.subrange(0, "engine-"@.len() as int) == "engine-"@,
            v@.len() >= "engine-"@.len(),
            forall|j: int| 0 <= j < k ==> v@[off + j] == q@[j],
        decreases q.len() - k,
    {
        if v[off + k] != q[k] {
            proof {
                assert(v@.subrange(off as int, v@.len() as int)[k as int] != q@[k as int]);
                assert(v@.subrange(off as int, v@.len() as int) != q@);
            }
            return false;
        }
        k = k + 1;
    }
    proof {
        assert(v@.subrange(off as int, v@.len() as int) =~= q@);
    }
    true
}

/// How many logs come before log `i` newest-first: those modified later,
/// and those modified at the same time that were listed earlier.
pub open spec fn newer_count(t: Seq<u64>, i: int, n: int) -> nat
    decreases n,
{
    if n <= 0 {
        0
    } else {
        newer_count(t, i, n - 1) + if t[n - 1] > t[i] || (t[n - 1] == t[i] && n - 1 < i) { 1nat } else { 0nat }
    }
}

proof fn lemma_newer_count_bound(t: Seq<u64>, i: int, n: int)
    requires
        0 <= n <= t.len(),
    ensures
        newer_count(t, i, n) <= n,
    decreases n,
{
    if n > 0 {
        lemma_newer_count_bound(t, i, n - 1);
    }
}

/// Which engine logs a prune removes, given each one's modification time:
/// all but the `ENGINE_LOG_RETAIN` newest (listing order breaks ties).
pub fn stale_logs(modified: &Vec<u64>) -> (r: Vec<bool>)
    ensures
        r@.len() == modified@.len(),
        forall|i: int| 0 <= i < r@.len() ==> #[trigger] r@[i] == (newer_count(modified@, i, modified@.len() as int) >= ENGINE_LOG_RETAIN),
{
    let mut out: Vec<bool> = Vec::new();
    let mut i: usize = 0;
    while i < modified.len()
        invariant
            i <= modified@.len(),
            out@.len() == i,
            forall|k: int| 0 <= k < i ==> #[trigger] out@[k] == (newer_count(modified@, k, modified@.len() as int) >= ENGINE_LOG_RETAIN),
        decreases modified.len() - i,
    {
        let mut count: usize = 0;
        let mut j: usize = 0;
        while j < modified.len()
            invariant
                j <= modified@.len(),
                i < modified@.len(),
                count as nat == newer_count(modified@, i as int, j as int),
            decreases modified.len() - j,
        {
            proof {
                lemma_newer_count_bound(modified@, i as int, j as int);
            }
            if modified[j] > modified[i] || (modified[j] == modified[i] && j < i) {
                count = count + 1;
            }
            j = j + 1;
        }
        out.push(count >= ENGINE_LOG_RETAIN);
        i = i + 1;
    }
    out
}

} // verus!
