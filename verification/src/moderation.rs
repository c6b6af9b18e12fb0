//! The measured side of the moderation dossier: which names are the
//! engine's defaults, the capped and de-duplicated lists of visible strings
//! and asset names, the class histogram, the depth of the hierarchy, the
//! heads of scripts, and the frame-by-frame capture job that orbits the
//! scene. Nothing here judges; it only measures.

use vstd::prelude::*;
use crate::text::{
    chars_of, string_of, trim, trimmed, is_whitespace, str_eq, lex_lt, lex_le, lemma_lex_total,
    lemma_lex_transitive, lemma_lex_irreflexive, chars_lt,
};
use crate::signals::{byte_len, utf8_len, char_utf8_len};

verus! {

/// Schema version the dossier consumer validates.
pub const DOSSIER_VERSION: u32 = 1;

/// Poses in the publish orbit.
pub const CAPTURE_COUNT: usize = 4;

/// Most visible strings the dossier carries.
pub const MAX_STRINGS: usize = 400;

/// Most characters kept of one visible string.
pub const MAX_STRING_CHARS: usize = 240;

/// Most scripts the dossier carries.
pub const MAX_SCRIPTS: usize = 40;

/// Most bytes of one script the dossier keeps.
pub const MAX_SCRIPT_BYTES_EACH: usize = 12288;

/// Most bytes of all scripts together.
pub const MAX_SCRIPT_BYTES_TOTAL: usize = 163840;

/// Most asset names per list.
pub const MAX_ASSET_NAMES: usize = 200;

/// Most classes the histogram keeps.
pub const MAX_HISTOGRAM_CLASSES: usize = 24;

/// Most entries kept per signal list.
pub const MAX_SIGNALS: usize = 50;

/// A character allowed after the class in a default name: an ASCII digit,
/// space, parenthesis, underscore or hyphen.
pub open spec fn is_default_suffix_char(c: char) -> bool {
    ('0' <= c && c <= '9') || c == ' ' || c == '(' || c == ')' || c == '_' || c == '-'
}

/// Whether a name is one the engine assigns when nobody chose one: after
/// trimming it is empty, the class itself, or the class followed by
/// digits, spaces, parentheses, underscores and hyphens only
/// (`Part (3)`, `Part12`, `MeshPart 2`).
pub open spec fn spec_is_default_name(name: Seq<char>, class: Seq<char>) -> bool {
    let n = trim(name);
    ||| n.len() == 0
    ||| n == class
    ||| (class.len() <= n.len() && n.subrange(0, class.len() as int) == class
        && forall|i: int| class.len() <= i < n.len() ==> is_default_suffix_char(#[trigger] n[i]))
}

/// Whether a name is one the engine assigns when nobody chose one.
pub fn is_default_name(name: &str, class: &str) -> (r: bool)
    ensures
        r == spec_is_default_name(name@, class@),
{
    let all = chars_of(name);
    let n = trimmed(&all);
    let c = chars_of(class);
    if n.len() == 0 || crate::text::chars_eq(&n, &c) {
        return true;
    }
    if c.len() > n.len() {
        return false;
    }
    let mut i: usize = 0;
    while i < c.len()
        invariant
            i <= c@.len(),
            c@.len() <= n@.len(),
            n@ == trim(name@),
            c@ == class@,
            n@.len() > 0,
            n@ != c@,
            forall|j: int| 0 <= j < i ==> n@[j] == c@[j],
        decreases c.len() - i,
    {
        if n[i] != c[i] {
            proof {
                assert(n@.subrange(0, c@.len() as int)[i as int] != c@[i as int]);
            }
            return false;
        }
        i = i + 1;
    }
    proof {
        assert(n@.subrange(0, c@.len() as int) =~= c@);
    }
    let mut j: usize = c.len();
    while j < n.len()
        invariant
            c@.len() <= j <= n@.len(),
            n@ == trim(name@),
            c@ == class@,
            n@.len() > 0,
            n@ != c@,
            forall|k: int| c@.len() <= k < j ==> is_default_suffix_char(#[trigger] n@[k]),
        decreases n.len() - j,
    {
        let ch = n[j];
        if !(('0' <= ch && ch <= '9') || ch == ' ' || ch == '(' || ch == ')' || ch == '_' || ch == '-') {
            return false;
        }
        j = j + 1;
    }
    true
}

/// The contents of a list of strings.
pub open spec fn strs(v: Seq<String>) -> Seq<Seq<char>> {
    v.map_values(|s: String| s@)
}

/// Whether a list of strings holds `s`.
fn holds_string(v: &Vec<String>, s: &Vec<char>) -> (r: bool)
    ensures
        r == strs(v@).contains(s@),
{
    let mut i: usize = 0;
    while i < v.len()
        invariant
            i <= v@.len(),
            forall|j: int| 0 <= j < i ==> (#[trigger] v@[j])@ != s@,
        decreases v.len() - i,
    {
        let w = chars_of(v[i].as_str());
        if crate::text::chars_eq(&w, s) {
            proof {
                assert(strs(v@)[i as int] == s@);
            }
            return true;
        }
        i = i + 1;
    }
    proof {
        assert forall|j: int| 0 <= j < strs(v@).len() implies strs(v@)[j] != s@ by {
            assert(strs(v@)[j] == v@[j]@);
        }
    }
    false
}

/// The list after offering it a visible string: the string is trimmed;
/// blank strings, and any string once the list holds `MAX_STRINGS`, are
/// dropped; the rest is clipped to `MAX_STRING_CHARS` characters and added
/// unless the list already holds it.
pub open spec fn offered_string(list: Seq<Seq<char>>, s: Seq<char>) -> Seq<Seq<char>> {
    let t = trim(s);
    let clipped = if t.len() > MAX_STRING_CHARS { t.subrange(0, MAX_STRING_CHARS as int) } else { t };
    if t.len() == 0 || list.len() >= MAX_STRINGS || list.contains(clipped) {
        list
    } else {
        list.push(clipped)
    }
}

/// Offer a visible string to the dossier's list.
pub fn push_string(out: &mut Vec<String>, s: &str)
    ensures
        strs(final(out)@) == offered_string(strs(old(out)@), s@),
{
    let all = chars_of(s);
    let t = trimmed(&all);
    if t.len() == 0 || out.len() >= MAX_STRINGS {
        return;
    }
    let mut clipped: Vec<char> = Vec::new();
    let mut i: usize = 0;
    while i < t.len() && i < MAX_STRING_CHARS
        invariant
            i <= t@.len(),
            i <= MAX_STRING_CHARS,
            clipped@ == t@.subrange(0, i as int),
        decreases t.len() - i,
    {
        clipped.push(t[i]);
        i = i + 1;
    }
    proof {
        if t@.len() <= MAX_STRING_CHARS {
            assert(clipped@ =~= t@);
        }
    }
    if !holds_string(out, &clipped) {
        let ghost before = out@;
        out.push(string_of(&clipped));
        proof {
            assert(strs(out@) =~= strs(before).push(clipped@));
        }
    }
}

/// The list after offering it an asset name: the name is trimmed; blank
/// names, and any name once the list holds `MAX_ASSET_NAMES`, are dropped;
/// the rest is added unless the list already holds it.
pub open spec fn offered_asset(list: Seq<Seq<char>>, s: Seq<char>) -> Seq<Seq<char>> {
    let t = trim(s);
    if t.len() == 0 || list.len() >= MAX_ASSET_NAMES || list.contains(t) {
        list
    } else {
        list.push(t)
    }
}

/// Offer an asset name to one of the dossier's asset lists.
pub fn push_asset(out: &mut Vec<String>, s: &str)
    ensures
        strs(final(out)@) == offered_asset(strs(old(out)@), s@),
{
    let all = chars_of(s);
    let t = trimmed(&all);
    if t.len() == 0 || out.len() >= MAX_ASSET_NAMES {
        return;
    }
    if !holds_string(out, &t) {
        let ghost before = out@;
        out.push(string_of(&t));
        proof {
            assert(strs(out@) =~= strs(before).push(t@));
        }
    }
}

/// Offering keeps a list free of repeats and within its cap.
pub proof fn law_offered_lists_stay_distinct_and_capped(list: Seq<Seq<char>>, s: Seq<char>)
    requires
        list.no_duplicates(),
        list.len() <= MAX_STRINGS,
    ensures
        offered_string(list, s).no_duplicates(),
        offered_string(list, s).len() <= MAX_STRINGS,
        list.len() <= MAX_ASSET_NAMES ==> offered_asset(list, s).no_duplicates()
            && offered_asset(list, s).len() <= MAX_ASSET_NAMES,
{
}

/// The first occurrences of `s`, in order.
pub open spec fn dedup(s: Seq<Seq<char>>) -> Seq<Seq<char>>
    decreases s.len(),
{
    if s.len() == 0 {
        s
    } else if s.drop_last().contains(s.last()) {
        dedup(s.drop_last())
    } else {
        dedup(s.drop_last()).push(s.last())
    }
}

proof fn lemma_dedup_contains(s: Seq<Seq<char>>, x: Seq<char>)
    ensures
        dedup(s).contains(x) <==> s.contains(x),
    decreases s.len(),
{
    if s.len() > 0 {
        lemma_dedup_contains(s.drop_last(), x);
        if s.drop_last().contains(x) {
            let i = choose|i: int| 0 <= i < s.drop_last().len() && s.drop_last()[i] == x;
            assert(s[i] == x);
        }
        if s.contains(x) && !s.drop_last().contains(x) {
            let i = choose|i: int| 0 <= i < s.len() && s[i] == x;
            if i < s.len() - 1 {
                assert(s.drop_last()[i] == x);
            }
            assert(x == s.last());
        }
        if s.drop_last().contains(s.last()) {
        } else {
            let d = dedup(s.drop_last());
            if d.contains(x) {
                let j = choose|j: int| 0 <= j < d.len() && d[j] == x;
                assert(d.push(s.last())[j] == x);
            }
            assert(d.push(s.last())[d.len() as int] == s.last());
            if d.push(s.last()).contains(x) && !d.contains(x) {
                let j = choose|j: int| 0 <= j < d.len() + 1 && d.push(s.last())[j] == x;
                if j < d.len() {
                    assert(d[j] == x);
                }
            }
        }
    }
}

/// A signal list keeps its first occurrences, at most `MAX_SIGNALS` of them.
pub open spec fn deduped_signals(s: Seq<Seq<char>>) -> Seq<Seq<char>> {
    let d = dedup(s);
    if d.len() > MAX_SIGNALS { d.subrange(0, MAX_SIGNALS as int) } else { d }
}

/// Keep the first occurrence of each entry, then at most `MAX_SIGNALS`.
pub fn dedup_list(list: &mut Vec<String>)
    ensures
        strs(final(list)@) == deduped_signals(strs(old(list)@)),
{
    let mut out: Vec<String> = Vec::new();
    let mut i: usize = 0;
    while i < list.len()
        invariant
            i <= list@.len(),
            strs(out@) == dedup(strs(list@.subrange(0, i as int))),
        decreases list.len() - i,
    {
        let w = chars_of(list[i].as_str());
        let ghost pre = strs(list@.subrange(0, i as int));
        proof {
            assert(strs(list@.subrange(0, i + 1)).drop_last() =~= pre);
            assert(strs(list@.subrange(0, i + 1)).last() == list@[i as int]@);
            lemma_dedup_contains(pre, w@);
        }
        if !holds_string(&out, &w) {
            let ghost before = out@;
            out.push(string_of(&w));
            proof {
                assert(strs(out@) =~= strs(before).push(w@));
            }
        }
        i = i + 1;
    }
    proof {
        assert(list@.subrange(0, list@.len() as int) =~= list@);
    }
    if out.len() > MAX_SIGNALS {
        out.truncate(MAX_SIGNALS);
        proof {
            assert(strs(out@) =~= dedup(strs(list@)).subrange(0, MAX_SIGNALS as int));
        }
    }
    *list = out;
}

/// Off-platform signals found in a dossier's text.
pub struct Signals {
    pub urls: Vec<String>,
    pub emails: Vec<String>,
    pub phones: Vec<String>,
    pub discord_invites: Vec<String>,
}

impl Signals {
    /// No signals.
    pub fn new() -> (r: Self)
        ensures
            r.urls@.len() == 0 && r.emails@.len() == 0 && r.phones@.len() == 0 && r.discord_invites@.len() == 0,
    {
        Signals { urls: Vec::new(), emails: Vec::new(), phones: Vec::new(), discord_invites: Vec::new() }
    }
}

/// Keep each signal list's first occurrences, at most `MAX_SIGNALS` each.
pub fn dedup_signals(s: &mut Signals)
    ensures
        strs(final(s).urls@) == deduped_signals(strs(old(s).urls@)),
        strs(final(s).emails@) == deduped_signals(strs(old(s).emails@)),
        strs(final(s).phones@) == deduped_signals(strs(old(s).phones@)),
        strs(final(s).discord_invites@) == deduped_signals(strs(old(s).discord_invites@)),
{
    dedup_list(&mut s.urls);
    dedup_list(&mut s.emails);
    dedup_list(&mut s.phones);
    dedup_list(&mut s.discord_invites);
}

/// The parent a list of (child, parent) entries gives an entity: the last
/// entry for it.
pub open spec fn parent_in(entries: Seq<(u64, u64)>, e: u64) -> Option<u64>
    decreases entries.len(),
{
    if entries.len() == 0 {
        None
    } else if entries.last().0 == e {
        Some(entries.last().1)
    } else {
        parent_in(entries.drop_last(), e)
    }
}

/// How many parent steps lead up from `cur`, having taken `d` already:
/// the walk stops at a root, or once it has taken more than 64 steps (a
/// cycle in a corrupt scene).
pub open spec fn steps_up(entries: Seq<(u64, u64)>, cur: u64, d: nat) -> nat
    decreases 65 - d,
{
    match parent_in(entries, cur) {
        None => d,
        Some(p) => if d + 1 > 64 { d + 1 } else { steps_up(entries, p, d + 1) },
    }
}

/// The parent of an entity by the entries.
fn lookup_parent(entries: &Vec<(u64, u64)>, e: u64) -> (r: Option<u64>)
    ensures
        r == parent_in(entries@, e),
{
    let mut i: usize = entries.len();
    proof {
        assert(entries@.subrange(0, entries@.len() as int) =~= entries@);
    }
    while i > 0
        invariant
            i <= entries@.len(),
            parent_in(entries@, e) == parent_in(entries@.subrange(0, i as int), e),
        decreases i,
    {
        proof {
            assert(entries@.subrange(0, i as int).drop_last() =~= entries@.subrange(0, i - 1));
        }
        if entries[i - 1].0 == e {
            return Some(entries[i - 1].1);
        }
        i = i - 1;
    }
    None
}

/// The depth of the hierarchy: the longest walk up from any entity that
/// has a parent, capped at 65 steps.
pub fn hierarchy_depth(entries: &Vec<(u64, u64)>) -> (r: usize)
    ensures
        forall|i: int| 0 <= i < entries@.len() ==> steps_up(entries@, #[trigger] entries@[i].0, 0) <= r,
        entries@.len() == 0 ==> r == 0,
        entries@.len() > 0 ==> exists|i: int| 0 <= i < entries@.len() && steps_up(entries@, #[trigger] entries@[i].0, 0) == r,
{
    proof {
        assert(entries@.subrange(0, entries@.len() as int) =~= entries@);
    }
    let mut depth: usize = 0;
    let mut s: usize = 0;
    while s < entries.len()
        invariant
            s <= entries@.len(),
            forall|i: int| 0 <= i < s ==> steps_up(entries@, #[trigger] entries@[i].0, 0) <= depth,
            s == 0 ==> depth == 0,
            s > 0 ==> exists|i: int| 0 <= i < s && steps_up(entries@, #[trigger] entries@[i].0, 0) == depth,
        decreases entries.len() - s,
    {
        let start = entries[s].0;
        let mut d: usize = 0;
        let mut cur = start;
        loop
            invariant_except_break
                d <= 64,
                steps_up(entries@, start, 0) == steps_up(entries@, cur, d as nat),
            ensures
                steps_up(entries@, start, 0) == d,
                d <= 65,
            decreases 65 - d,
        {
            match lookup_parent(entries, cur) {
                None => break,
                Some(p) => {
                    d = d + 1;
                    cur = p;
                    if d > 64 {
                        break;
                    }
                },
            }
        }
        if d > depth {
            depth = d;
        }
        s = s + 1;
    }
    depth
}

/// One class's count in the histogram.
pub struct ClassCount {
    pub class_name: String,
    pub count: usize,
}

/// How many entries of `s` are `x`.
pub open spec fn occurrences(s: Seq<Seq<char>>, x: Seq<char>) -> nat
    decreases s.len(),
{
    if s.len() == 0 {
        0
    } else {
        occurrences(s.drop_last(), x) + if s.last() == x { 1nat } else { 0nat }
    }
}

/// The histogram order: larger counts first, then names in order.
pub open spec fn hist_before(a: (Seq<char>, nat), b: (Seq<char>, nat)) -> bool {
    a.1 > b.1 || (a.1 == b.1 && lex_lt(a.0, b.0))
}

/// The entries of a histogram as plain values.
pub open spec fn hist_view(h: Seq<ClassCount>) -> Seq<(Seq<char>, nat)> {
    h.map_values(|c: ClassCount| (c.class_name@, c.count as nat))
}

/// A histogram of `classes`: one entry per distinct class, with its
/// number of occurrences, in histogram order.
pub open spec fn is_histogram_of(h: Seq<(Seq<char>, nat)>, classes: Seq<Seq<char>>) -> bool {
    &&& forall|i: int| 0 <= i < h.len() ==> #[trigger] h[i].1 == occurrences(classes, h[i].0)
    &&& forall|i: int| 0 <= i < h.len() ==> classes.contains(#[trigger] h[i].0)
    &&& forall|x: Seq<char>| #[trigger] classes.contains(x) ==> exists|i: int| 0 <= i < h.len() && h[i].0 == x
    &&& hist_sorted(h)
}

proof fn lemma_occurrences_absent(s: Seq<Seq<char>>, x: Seq<char>)
    requires
        !s.contains(x),
    ensures
        occurrences(s, x) == 0,
    decreases s.len(),
{
    if s.len() > 0 {
        assert(!s.drop_last().contains(x)) by {
            if s.drop_last().contains(x) {
                let i = choose|i: int| 0 <= i < s.drop_last().len() && s.drop_last()[i] == x;
                assert(s[i] == x);
            }
        }
        assert(s.last() != x) by {
            if s.last() == x {
                assert(s[s.len() - 1] == x);
            }
        }
        lemma_occurrences_absent(s.drop_last(), x);
    }
}

proof fn lemma_occurrences_bound(s: Seq<Seq<char>>, x: Seq<char>)
    ensures
        occurrences(s, x) <= s.len(),
    decreases s.len(),
{
    if s.len() > 0 {
        lemma_occurrences_bound(s.drop_last(), x);
    }
}

proof fn lemma_hist_total(a: (Seq<char>, nat), b: (Seq<char>, nat))
    requires
        a.0 != b.0,
    ensures
        hist_before(a, b) || hist_before(b, a),
        !(hist_before(a, b) && hist_before(b, a)),
{
    lemma_lex_total(a.0, b.0);
}

proof fn lemma_hist_transitive(a: (Seq<char>, nat), b: (Seq<char>, nat), c: (Seq<char>, nat))
    requires
        hist_before(a, b),
        hist_before(b, c),
    ensures
        hist_before(a, c),
{
    if a.1 == b.1 && b.1 == c.1 {
        lemma_lex_transitive(a.0, b.0, c.0);
    }
}

/// Whether one histogram entry comes before another.
fn entry_before(a: &ClassCount, b: &ClassCount) -> (r: bool)
    ensures
        r == hist_before((a.class_name@, a.count as nat), (b.class_name@, b.count as nat)),
{
    if a.count > b.count {
        return true;
    }
    if a.count < b.count {
        return false;
    }
    let an = chars_of(a.class_name.as_str());
    let bn = chars_of(b.class_name.as_str());
    chars_lt(&an, &bn)
}

/// The class histogram of a scene: one entry per distinct class with its
/// number of occurrences, larger counts first and names in order among
/// equal counts.
pub fn class_histogram(classes: &Vec<String>) -> (r: Vec<ClassCount>)
    ensures
        is_histogram_of(hist_view(r@), strs(classes@)),
{
    let mut names: Vec<String> = Vec::new();
    let mut counts: Vec<usize> = Vec::new();
    let mut i: usize = 0;
    while i < classes.len()
        invariant
            i <= classes@.len(),
            names@.len() == counts@.len(),
            forall|a: int, b: int| 0 <= a < b < names@.len() ==> (#[trigger] names@[a])@ != (#[trigger] names@[b])@,
            forall|a: int| 0 <= a < names@.len() ==> #[trigger] counts@[a] == occurrences(strs(classes@.subrange(0, i as int)), names@[a]@),
            forall|a: int| 0 <= a < names@.len() ==> strs(classes@.subrange(0, i as int)).contains(#[trigger] names@[a]@),
            forall|x: Seq<char>| #[trigger] strs(classes@.subrange(0, i as int)).contains(x) ==> exists|a: int| 0 <= a < names@.len() && names@[a]@ == x,
        decreases classes.len() - i,
    {
        let w = chars_of(classes[i].as_str());
        let ghost pre = strs(classes@.subrange(0, i as int));
        let ghost post = strs(classes@.subrange(0, i + 1));
        proof {
            assert(post.drop_last() =~= pre);
            assert(post.last() == w@);
            assert(post =~= pre.push(w@));
        }
        let mut a: usize = 0;
        let mut found = false;
        while a < names.len() && !found
            invariant
                a <= names@.len(),
                found ==> a < names@.len() && names@[a as int]@ == w@,
                !found ==> forall|b: int| 0 <= b < a ==> (#[trigger] names@[b])@ != w@,
            decreases names.len() - a + (if found { 0int } else { 1int }),
        {
            let nb = chars_of(names[a].as_str());
            if crate::text::chars_eq(&nb, &w) {
                found = true;
            } else {
                a = a + 1;
            }
        }
        if found {
            assert(counts@[a as int] + 1 <= classes@.len()) by {
                lemma_occurrences_bound(post, w@);
                assert(post.len() == i + 1);
            }
            let c = counts[a] + 1;
            counts.set(a, c);
            proof {
                assert forall|b: int| 0 <= b < names@.len() implies #[trigger] counts@[b] == occurrences(post, names@[b]@) by {
                }
                assert forall|b: int| 0 <= b < names@.len() implies post.contains(#[trigger] names@[b]@) by {
                    let q = choose|q: int| 0 <= q < pre.len() && pre[q] == names@[b]@;
                    assert(post[q] == names@[b]@);
                }
                assert forall|x: Seq<char>| #[trigger] post.contains(x) implies exists|b: int| 0 <= b < names@.len() && names@[b]@ == x by {
                    let q = choose|q: int| 0 <= q < post.len() && post[q] == x;
                    if q < pre.len() {
                        assert(pre[q] == x);
                        assert(pre.contains(x));
                    } else {
                        assert(names@[a as int]@ == x);
                    }
                }
            }
        } else {
            proof {
                assert(!pre.contains(w@)) by {
                    if pre.contains(w@) {
                        let b = choose|b: int| 0 <= b < names@.len() && names@[b]@ == w@;
                        assert(names@[b]@ != w@);
                    }
                }
                lemma_occurrences_absent(pre, w@);
            }
            let ghost old_names = names@;
            names.push(string_of(&w));
            counts.push(1);
            proof {
                assert forall|b: int| 0 <= b < names@.len() implies #[trigger] counts@[b] == occurrences(post, names@[b]@) by {
                }
                assert forall|b: int| 0 <= b < names@.len() implies post.contains(#[trigger] names@[b]@) by {
                    if b < names@.len() - 1 {
                        let q = choose|q: int| 0 <= q < pre.len() && pre[q] == names@[b]@;
                        assert(post[q] == names@[b]@);
                    } else {
                        assert(post[i as int] == names@[b]@);
                    }
                }
                assert forall|x: Seq<char>| #[trigger] post.contains(x) implies exists|b: int| 0 <= b < names@.len() && names@[b]@ == x by {
                    let q = choose|q: int| 0 <= q < post.len() && post[q] == x;
                    if q < pre.len() {
                        assert(pre[q] == x);
                        assert(pre.contains(x));
                        let b = choose|b: int| 0 <= b < old_names.len() && old_names[b]@ == x;
                        assert(names@[b] == old_names[b]);
                    } else {
                        assert(names@[names@.len() - 1]@ == x);
                    }
                }
            }
        }
        i = i + 1;
    }
    proof {
        assert(classes@.subrange(0, classes@.len() as int) =~= classes@);
    }
    let ghost all = strs(classes@);
    let out = sorted_entries(&names, &counts);
    proof {
        reveal(members_of);
        let hv = hist_view(out@);
        let nv = entry_views(names@, counts@);
        assert forall|q: int| 0 <= q < hv.len() implies #[trigger] hv[q].1 == occurrences(all, hv[q].0) && all.contains(hv[q].0) by {
            let hq = hv[q];
            let a = choose|a: int| 0 <= a < names@.len() && hv[q] == nv[a];
            assert(nv[a].0 == names@[a]@ && nv[a].1 == counts@[a] as nat);
        }
        assert forall|x: Seq<char>| #[trigger] all.contains(x) implies exists|q: int| 0 <= q < hv.len() && hv[q].0 == x by {
            let a = choose|a: int| 0 <= a < names@.len() && names@[a]@ == x;
            let na = nv[a];
            assert(na.0 == x);
            let q = choose|q: int| 0 <= q < hv.len() && hv[q].0 == nv[a].0;
        }
    }
    out
}

/// The entries of a histogram put in histogram order.
fn sorted_entries(names: &Vec<String>, counts: &Vec<usize>) -> (out: Vec<ClassCount>)
    requires
        names@.len() == counts@.len(),
        forall|a: int, b: int| 0 <= a < b < names@.len() ==> (#[trigger] names@[a])@ != (#[trigger] names@[b])@,
    ensures
        out@.len() == names@.len(),
        members_of(hist_view(out@), entry_views(names@, counts@), names@.len() as int),
        hist_sorted(hist_view(out@)),
{
    let ghost nv = entry_views(names@, counts@);
    let mut out: Vec<ClassCount> = Vec::new();
    let mut k: usize = 0;
    proof {
        reveal(members_of);
        reveal(hist_sorted);
    }
    while k < names.len()
        invariant
            k <= names@.len(),
            names@.len() == counts@.len(),
            nv == entry_views(names@, counts@),
            forall|a: int, b: int| 0 <= a < b < nv.len() ==> (#[trigger] nv[a]).0 != (#[trigger] nv[b]).0,
            out@.len() == k,
            members_of(hist_view(out@), nv, k as int),
            hist_sorted(hist_view(out@)),
        decreases names.len() - k,
    {
        let x = ClassCount { class_name: string_of(&chars_of(names[k].as_str())), count: counts[k] };
        let ghost xv = (x.class_name@, x.count as nat);
        let mut p: usize = 0;
        while p < out.len() && entry_before(&out[p], &x)
            invariant
                p <= out@.len(),
                xv == (x.class_name@, x.count as nat),
                forall|q: int| 0 <= q < p ==> hist_before(#[trigger] hist_view(out@)[q], xv),
            decreases out.len() - p,
        {
            proof {
                assert(hist_view(out@)[p as int] == (out@[p as int].class_name@, out@[p as int].count as nat));
            }
            p = p + 1;
        }
        let ghost hb = hist_view(out@);
        proof {
            assert(xv == nv[k as int]);
            lemma_fresh_name(hb, nv, k as int);
            if p < hb.len() {
                assert(hb[p as int] == (out@[p as int].class_name@, out@[p as int].count as nat));
                lemma_hist_total(hb[p as int], xv);
            }
            lemma_insert_sorted(hb, p as int, xv);
            lemma_insert_members(hb, nv, k as int, p as int);
        }
        out.insert(p, x);
        proof {
            assert(hist_view(out@) =~= hb.insert(p as int, xv));
        }
        k = k + 1;
    }
    out
}

/// Names with their counts, as histogram entries.
pub open spec fn entry_views(names: Seq<String>, counts: Seq<usize>) -> Seq<(Seq<char>, nat)> {
    Seq::new(names.len(), |a: int| (names[a]@, counts[a] as nat))
}

/// The first `k` entries of `nv` are exactly the entries of `h`.
#[verifier::opaque]
pub open spec fn members_of(h: Seq<(Seq<char>, nat)>, nv: Seq<(Seq<char>, nat)>, k: int) -> bool {
    &&& h.len() == k
    &&& forall|q: int| 0 <= q < h.len() ==> exists|a: int| 0 <= a < k && #[trigger] h[q] == nv[a]
    &&& forall|a: int| 0 <= a < k ==> exists|q: int| 0 <= q < h.len() && h[q].0 == (#[trigger] nv[a]).0
}

proof fn lemma_fresh_name(h: Seq<(Seq<char>, nat)>, nv: Seq<(Seq<char>, nat)>, k: int)
    requires
        0 <= k < nv.len(),
        members_of(h, nv, k),
        forall|a: int, b: int| 0 <= a < b < nv.len() ==> (#[trigger] nv[a]).0 != (#[trigger] nv[b]).0,
    ensures
        forall|q: int| 0 <= q < h.len() ==> (#[trigger] h[q]).0 != nv[k].0,
{
    reveal(members_of);
    assert forall|q: int| 0 <= q < h.len() implies (#[trigger] h[q]).0 != nv[k].0 by {
        let a = choose|a: int| 0 <= a < k && h[q] == nv[a];
        assert(nv[a].0 != nv[k].0);
    }
}

proof fn lemma_insert_members(h: Seq<(Seq<char>, nat)>, nv: Seq<(Seq<char>, nat)>, k: int, p: int)
    requires
        0 <= k < nv.len(),
        0 <= p <= h.len(),
        members_of(h, nv, k),
    ensures
        members_of(h.insert(p, nv[k]), nv, k + 1),
{
    reveal(members_of);
    let t = h.insert(p, nv[k]);
    assert forall|q: int| 0 <= q < t.len() implies exists|a: int| 0 <= a < k + 1 && #[trigger] t[q] == nv[a] by {
        if q < p {
            assert(t[q] == h[q]);
            let a = choose|a: int| 0 <= a < k && h[q] == nv[a];
        } else if q == p {
            assert(t[q] == nv[k]);
        } else {
            assert(t[q] == h[q - 1]);
            let a = choose|a: int| 0 <= a < k && h[q - 1] == nv[a];
        }
    }
    assert forall|a: int| 0 <= a < k + 1 implies exists|q: int| 0 <= q < t.len() && t[q].0 == (#[trigger] nv[a]).0 by {
        if a == k {
            assert(t[p].0 == nv[a].0);
        } else {
            let q = choose|q: int| 0 <= q < h.len() && h[q].0 == nv[a].0;
            if q < p {
                assert(t[q] == h[q]);
            } else {
                assert(t[q + 1] == h[q]);
            }
        }
    }
}

/// Entries in histogram order.
#[verifier::opaque]
pub open spec fn hist_sorted(h: Seq<(Seq<char>, nat)>) -> bool {
    forall|i: int, j: int| 0 <= i < j < h.len() ==> hist_before(#[trigger] h[i], #[trigger] h[j])
}

proof fn lemma_insert_sorted(h: Seq<(Seq<char>, nat)>, p: int, x: (Seq<char>, nat))
    requires
        hist_sorted(h),
        0 <= p <= h.len(),
        forall|q: int| 0 <= q < p ==> hist_before(#[trigger] h[q], x),
        p < h.len() ==> hist_before(x, h[p]),
    ensures
        hist_sorted(h.insert(p, x)),
{
    reveal(hist_sorted);
    let t = h.insert(p, x);
    assert forall|a: int, b: int| 0 <= a < b < t.len() implies hist_before(#[trigger] t[a], #[trigger] t[b]) by {
        if b < p {
            assert(t[a] == h[a] && t[b] == h[b]);
        } else if b == p {
            assert(t[b] == x && t[a] == h[a]);
        } else if a < p {
            assert(t[a] == h[a] && t[b] == h[b - 1]);
            if b - 1 > p {
                lemma_hist_transitive(x, h[p], h[b - 1]);
            }
            lemma_hist_transitive(h[a], x, h[b - 1]);
        } else if a == p {
            assert(t[a] == x && t[b] == h[b - 1]);
            if b - 1 > p {
                lemma_hist_transitive(x, h[p], h[b - 1]);
            }
        } else {
            assert(t[a] == h[a - 1] && t[b] == h[b - 1]);
        }
    }
}

/// The count the first entry named `name` has, or 0.
pub open spec fn count_for(h: Seq<(Seq<char>, nat)>, name: Seq<char>) -> nat
    decreases h.len(),
{
    if h.len() == 0 {
        0
    } else if h[0].0 == name {
        h[0].1
    } else {
        count_for(h.drop_first(), name)
    }
}

/// The count of the first entry named `name`, or 0.
pub fn class_count(h: &Vec<ClassCount>, name: &str) -> (r: usize)
    ensures
        r as nat == count_for(hist_view(h@), name@),
{
    let mut i: usize = 0;
    proof {
        assert(hist_view(h@).skip(0) =~= hist_view(h@));
    }
    while i < h.len()
        invariant
            i <= h@.len(),
            count_for(hist_view(h@), name@) == count_for(hist_view(h@).skip(i as int), name@),
        decreases h.len() - i,
    {
        proof {
            assert(hist_view(h@).skip(i as int)[0] == (h@[i as int].class_name@, h@[i as int].count as nat));
            assert(hist_view(h@).skip(i as int).drop_first() =~= hist_view(h@).skip(i + 1));
        }
        if str_eq(h[i].class_name.as_str(), name) {
            return h[i].count;
        }
        i = i + 1;
    }
    0
}

/// What the dossier keeps of the class histogram: the first
/// `MAX_HISTOGRAM_CLASSES` entries, and the counts of spawn locations,
/// sounds, decals and mesh parts read before the cut.
pub struct HistogramSummary {
    pub class_histogram: Vec<ClassCount>,
    pub spawn_count: usize,
    pub sound_count: usize,
    pub decal_count: usize,
    pub mesh_count: usize,
}

/// Summarize the classes of a scene's entities.
pub fn summarize_classes(classes: &Vec<String>) -> (r: HistogramSummary)
    ensures
        exists|full: Seq<ClassCount>| {
            &&& is_histogram_of(hist_view(full), strs(classes@))
            &&& r.class_histogram@ == if full.len() > MAX_HISTOGRAM_CLASSES {
                full.subrange(0, MAX_HISTOGRAM_CLASSES as int)
            } else {
                full
            }
            &&& r.spawn_count as nat == count_for(hist_view(full), "SpawnLocation"@)
            &&& r.sound_count as nat == count_for(hist_view(full), "Sound"@)
            &&& r.decal_count as nat == count_for(hist_view(full), "Decal"@)
            &&& r.mesh_count as nat == count_for(hist_view(full), "MeshPart"@)
        },
{
    let mut h = class_histogram(classes);
    let ghost full = h@;
    let spawn_count = class_count(&h, "SpawnLocation");
    let sound_count = class_count(&h, "Sound");
    let decal_count = class_count(&h, "Decal");
    let mesh_count = class_count(&h, "MeshPart");
    h.truncate(MAX_HISTOGRAM_CLASSES);
    HistogramSummary { class_histogram: h, spawn_count, sound_count, decal_count, mesh_count }
}

/// The language a script is tagged with by its extension: Luau for
/// `luau` and `lua`, Rune otherwise.
pub fn script_language(ext: &str) -> (r: &'static str)
    ensures
        r@ == if ext@ == "luau"@ || ext@ == "lua"@ { "luau"@ } else { "rune"@ },
{
    if str_eq(ext, "luau") || str_eq(ext, "lua") {
        "luau"
    } else {
        "rune"
    }
}

/// Whether a file extension marks a script: `luau`, `lua`, `rn`, `rune`.
pub fn is_script_extension(ext: &str) -> (r: bool)
    ensures
        r == (ext@ == "luau"@ || ext@ == "lua"@ || ext@ == "rn"@ || ext@ == "rune"@),
{
    str_eq(ext, "luau") || str_eq(ext, "lua") || str_eq(ext, "rn") || str_eq(ext, "rune")
}

/// Whether the script walk skips a directory: publish state, version
/// control, build output, packages and binary assets.
pub fn is_skipped_directory(name: &str) -> (r: bool)
    ensures
        r == (name@ == ".eustress"@ || name@ == ".git"@ || name@ == "target"@ || name@ == "node_modules"@
            || name@ == "assets"@),
{
    str_eq(name, ".eustress") || str_eq(name, ".git") || str_eq(name, "target") || str_eq(name, "node_modules")
        || str_eq(name, "assets")
}

/// The head of a script the dossier keeps: its first `cap` characters;
/// when that cuts the script short, further cut back to before the last
/// line break, so no line is torn.
pub open spec fn spec_script_head(source: Seq<char>, cap: nat) -> Seq<char> {
    if source.len() <= cap {
        source
    } else {
        let head = source.subrange(0, cap as int);
        if exists|i: int| 0 <= i < head.len() && head[i] == '\n' {
            let k = choose|k: int| 0 <= k < head.len() && head[k] == '\n' && forall|j: int| k < j < head.len() ==> head[j] != '\n';
            head.subrange(0, k)
        } else {
            head
        }
    }
}

/// The head of a script the dossier keeps, and whether it was cut short.
pub fn script_head(source: &str, cap: usize) -> (r: (String, bool))
    ensures
        r.0@ == spec_script_head(source@, cap as nat),
        r.0@.len() <= cap,
        r.0@.len() <= source@.len(),
        r.1 == (source@.len() > cap),
{
    let v = chars_of(source);
    let mut n: usize = if v.len() <= cap { v.len() } else { cap };
    if v.len() > cap {
        let mut last: Option<usize> = None;
        let mut q: usize = 0;
        while q < cap
            invariant
                q <= cap,
                cap < v@.len(),
                match last {
                    Some(u) => u < q && v@[u as int] == '\n' && forall|j: int| u < j < q ==> #[trigger] v@[j] != '\n',
                    None => forall|j: int| 0 <= j < q ==> #[trigger] v@[j] != '\n',
                },
            decreases cap - q,
        {
            if v[q] == '\n' {
                last = Some(q);
            }
            q = q + 1;
        }
        let ghost head = v@.subrange(0, cap as int);
        match last {
            Some(u) => {
                proof {
                    assert(head[u as int] == '\n');
                    let k = choose|k: int| 0 <= k < head.len() && head[k] == '\n' && forall|j: int| k < j < head.len() ==> head[j] != '\n';
                    assert(k == u) by {
                        if k < u {
                            assert(head[u as int] != '\n');
                        } else if k > u {
                            assert(head[k] != '\n');
                        }
                    }
                }
                n = u;
            },
            None => {
                proof {
                    assert forall|i: int| 0 <= i < head.len() implies head[i] != '\n' by {
                        assert(head[i] == v@[i]);
                    }
                }
            },
        }
    }
    let mut out: Vec<char> = Vec::new();
    let mut i: usize = 0;
    while i < n
        invariant
            i <= n,
            n <= v@.len(),
            out@ == v@.subrange(0, i as int),
        decreases n - i,
    {
        out.push(v[i]);
        i = i + 1;
    }
    proof {
        if v@.len() <= cap {
            assert(out@ =~= v@);
        } else {
            assert(out@ =~= v@.subrange(0, cap as int).subrange(0, n as int));
        }
    }
    (string_of(&out), v.len() > cap)
}

/// A script file as read from the Universe: its path relative to the
/// Universe root with `/` separators, its extension, its size on disk in
/// bytes, and its text.
pub struct ScriptFile {
    pub path: String,
    pub extension: String,
    pub bytes: usize,
    pub source: String,
}

/// One script of the dossier.
pub struct ScriptEntry {
    pub path: String,
    pub language: String,
    /// Lines of the whole script.
    pub lines: usize,
    /// Size of the whole script on disk.
    pub bytes: usize,
    /// Whether `source` is only the head of the script.
    pub truncated: bool,
    /// The head of the script the dossier keeps.
    pub source: String,
}

/// The number of line breaks in `s`.
pub open spec fn newlines(s: Seq<char>) -> nat
    decreases s.len(),
{
    if s.len() == 0 {
        0
    } else {
        newlines(s.drop_last()) + if s.last() == '\n' { 1nat } else { 0nat }
    }
}

/// How many lines `str::lines` finds: one per line break, and one more
/// for text after the last break.
pub open spec fn line_count(s: Seq<char>) -> nat {
    newlines(s) + if s.len() > 0 && s.last() != '\n' { 1nat } else { 0nat }
}

/// The most characters of the next script kept after `spent` bytes of
/// heads: the per-script cap, or what is left of the total when less.
pub open spec fn head_cap(spent: nat) -> nat {
    let rest = if spent >= MAX_SCRIPT_BYTES_TOTAL { 0 } else { (MAX_SCRIPT_BYTES_TOTAL - spent) as nat };
    if MAX_SCRIPT_BYTES_EACH <= rest { MAX_SCRIPT_BYTES_EACH as nat } else { rest }
}

/// The bytes of heads kept from the first `i` scripts.
pub open spec fn head_bytes_before(files: Seq<ScriptFile>, i: int) -> nat
    decreases i,
{
    if i <= 0 {
        0
    } else {
        let spent = head_bytes_before(files, i - 1);
        spent + byte_len(spec_script_head(files[i - 1].source@, head_cap(spent)))
    }
}

/// Whether `e` is the dossier's entry for the `i`-th script file.
pub open spec fn entry_matches(e: ScriptEntry, files: Seq<ScriptFile>, i: int) -> bool {
    let f = files[i];
    let cap = head_cap(head_bytes_before(files, i));
    &&& e.path@ == f.path@
    &&& e.language@ == spec_script_language(f.extension@)
    &&& e.lines as nat == line_count(f.source@)
    &&& e.bytes == f.bytes
    &&& e.source@ == spec_script_head(f.source@, cap)
    &&& e.truncated == (f.source@.len() > cap)
}

/// The language tag of a script extension.
pub open spec fn spec_script_language(ext: Seq<char>) -> Seq<char> {
    if ext == "luau"@ || ext == "lua"@ { "luau"@ } else { "rune"@ }
}

proof fn lemma_byte_len_bound(s: Seq<char>)
    ensures
        byte_len(s) <= 4 * s.len(),
    decreases s.len(),
{
    if s.len() > 0 {
        lemma_byte_len_bound(s.drop_last());
    }
}

proof fn lemma_newlines_bound(s: Seq<char>)
    ensures
        newlines(s) <= s.len(),
    decreases s.len(),
{
    if s.len() > 0 {
        lemma_newlines_bound(s.drop_last());
    }
}

/// The number of lines of a text, as `str::lines` counts them.
fn count_lines(text: &str) -> (r: usize)
    ensures
        r as nat == line_count(text@),
{
    let v = chars_of(text);
    let mut n: usize = 0;
    let mut i: usize = 0;
    while i < v.len()
        invariant
            i <= v@.len(),
            v@ == text@,
            n as nat == newlines(v@.subrange(0, i as int)),
            n <= i,
        decreases v.len() - i,
    {
        proof {
            assert(v@.subrange(0, i + 1).drop_last() =~= v@.subrange(0, i as int));
        }
        if v[i] == '\n' {
            n = n + 1;
        }
        i = i + 1;
    }
    proof {
        assert(v@.subrange(0, v@.len() as int) =~= v@);
        if v@.len() > 0 {
            lemma_newlines_bound(v@.drop_last());
        }
    }
    if v.len() > 0 && v[v.len() - 1] != '\n' {
        n + 1
    } else {
        n
    }
}

/// The number of bytes a text takes in UTF-8.
fn utf8_bytes(text: &String) -> (r: usize)
    requires
        4 * text@.len() <= usize::MAX,
    ensures
        r as nat == byte_len(text@),
{
    let v = chars_of(text.as_str());
    let mut n: usize = 0;
    let mut i: usize = 0;
    while i < v.len()
        invariant
            i <= v@.len(),
            v@ == text@,
            4 * v@.len() <= usize::MAX,
            n as nat == byte_len(v@.subrange(0, i as int)),
        decreases v.len() - i,
    {
        proof {
            assert(v@.subrange(0, i + 1).drop_last() =~= v@.subrange(0, i as int));
            lemma_byte_len_bound(v@.subrange(0, i as int));
        }
        n = n + char_utf8_len(v[i]);
        i = i + 1;
    }
    proof {
        assert(v@.subrange(0, v@.len() as int) =~= v@);
    }
    n
}

/// The dossier's script entries from the script files read, in the order
/// given: each keeps the head of its script within the per-script cap and
/// what remains of the total; once the total is spent no further script is
/// kept.
#[verifier::rlimit(30)]
pub fn script_entries(files: Vec<ScriptFile>) -> (r: Vec<ScriptEntry>)
    ensures
        r@.len() <= files@.len(),
        r@.len() < files@.len() ==> head_bytes_before(files@, r@.len() as int) >= MAX_SCRIPT_BYTES_TOTAL,
        forall|i: int| 0 <= i < r@.len() ==> head_bytes_before(files@, i) < MAX_SCRIPT_BYTES_TOTAL,
        forall|i: int| 0 <= i < r@.len() ==> entry_matches(#[trigger] r@[i], files@, i),
{
    let ghost all = files@;
    let mut out: Vec<ScriptEntry> = Vec::new();
    let mut total: usize = 0;
    let mut rest = files;
    let mut i: usize = 0;
    proof {
        assert(all.len() == rest.len());
    }
    while rest.len() > 0
        invariant_except_break
            rest@ == all.subrange(i as int, all.len() as int),
            i + rest@.len() == all.len(),
        invariant
            out@.len() == i,
            i <= all.len(),
            all.len() <= usize::MAX,
            total as nat == head_bytes_before(all, i as int),
            total <= MAX_SCRIPT_BYTES_TOTAL + 4 * MAX_SCRIPT_BYTES_EACH,
            forall|j: int| 0 <= j < i ==> head_bytes_before(all, j) < MAX_SCRIPT_BYTES_TOTAL,
            forall|j: int| 0 <= j < i ==> entry_matches(#[trigger] out@[j], all, j),
        ensures
            i < all.len() ==> total >= MAX_SCRIPT_BYTES_TOTAL,
        decreases rest.len(),
    {
        if total >= MAX_SCRIPT_BYTES_TOTAL {
            break;
        }
        let remaining = MAX_SCRIPT_BYTES_TOTAL - total;
        let cap = if MAX_SCRIPT_BYTES_EACH <= remaining { MAX_SCRIPT_BYTES_EACH } else { remaining };
        let f = rest.remove(0);
        proof {
            assert(f == all[i as int]);
            assert(cap as nat == head_cap(total as nat));
        }
        let lines = count_lines(f.source.as_str());
        let (head, truncated) = script_head(f.source.as_str(), cap);
        let head_len = utf8_bytes(&head);
        proof {
            lemma_byte_len_bound(head@);
            assert(head_bytes_before(all, i + 1) == head_bytes_before(all, i as int) + byte_len(head@));
        }
        let language = script_language(f.extension.as_str());
        let mut lang = String::new();
        crate::text::push_str(&mut lang, language);
        let ghost prev = out@;
        let e = ScriptEntry { path: f.path, language: lang, lines, bytes: f.bytes, truncated, source: head };
        proof {
            assert(entry_matches(e, all, i as int));
        }
        out.push(e);
        total = total + head_len;
        i = i + 1;
        proof {
            assert(rest@ =~= all.subrange(i as int, all.len() as int));
            assert forall|j: int| 0 <= j < i implies entry_matches(#[trigger] out@[j], all, j) by {
                if j < i - 1 {
                    assert(out@[j] == prev[j]);
                }
            }
        }
    }
    out
}

/// The publish orbit's frame-by-frame job: how many poses it has, the
/// next pose to shoot, the capture it waits on, and that capture's file
/// size seen on the previous frame.
pub struct PublishCaptureJob {
    pub poses: usize,
    pub next: usize,
    pub waiting_on: Option<usize>,
    pub last_size: Option<u64>,
}

/// What one frame of the job does after landing any capture.
#[derive(Debug, Clone, Copy, PartialEq, Eq, Structural)]
pub enum CaptureStep {
    /// Mark the job done and remove it.
    Finish,
    /// Keep waiting for the in-flight capture.
    Wait,
    /// Pose the camera for this pose and request its capture.
    Capture(usize),
}

/// One frame of the job: the capture that landed this frame, if any, and
/// what happens next.
#[derive(Debug, Clone, Copy, PartialEq, Eq, Structural)]
pub struct CaptureFrame {
    pub landed: Option<usize>,
    pub step: CaptureStep,
}

/// Start the orbit: no job when there is nothing to shoot or no camera to
/// shoot with (the capture set is then done at once).
pub fn start_capture_job(poses: usize, camera_available: bool) -> (r: Option<PublishCaptureJob>)
    ensures
        (poses == 0 || !camera_available) <==> r is None,
        r matches Some(j) ==> j.poses == poses && j.next == 0 && j.waiting_on is None && j.last_size is None,
{
    if poses == 0 || !camera_available {
        None
    } else {
        Some(PublishCaptureJob { poses, next: 0, waiting_on: None, last_size: None })
    }
}

impl PublishCaptureJob {
    /// The job's own bookkeeping holds.
    pub open spec fn wf(self) -> bool {
        &&& self.next <= self.poses
        &&& (self.waiting_on matches Some(w) ==> w + 1 == self.next)
        &&& (self.waiting_on is None ==> self.last_size is None)
    }

    /// One frame: past the time budget the job finishes with what landed;
    /// a capture in flight lands once its file has a non-zero size that held
    /// still for a frame, and until then the job waits; then the job
    /// finishes when every pose was shot or the camera is gone, and
    /// otherwise requests the next pose.
    pub fn drive_publish_captures(&mut self, budget_exhausted: bool, observed_size: Option<u64>, camera_present: bool) -> (r: CaptureFrame)
        requires
            old(self).wf(),
        ensures
            (*final(self), r) == capture_step(*old(self), budget_exhausted, observed_size, camera_present),
    {
        if budget_exhausted {
            return CaptureFrame { landed: None, step: CaptureStep::Finish };
        }
        let mut landed: Option<usize> = None;
        if let Some(w) = self.waiting_on {
            let size = match observed_size {
                Some(n) => if n > 0 { Some(n) } else { None },
                None => None,
            };
            let settled = match (size, self.last_size) {
                (Some(now), Some(prev)) => now == prev,
                _ => false,
            };
            if settled {
                landed = Some(w);
                self.waiting_on = None;
                self.last_size = None;
            } else {
                self.last_size = size;
                return CaptureFrame { landed: None, step: CaptureStep::Wait };
            }
        }
        if self.next >= self.poses || !camera_present {
            return CaptureFrame { landed, step: CaptureStep::Finish };
        }
        let i = self.next;
        self.waiting_on = Some(i);
        self.last_size = None;
        self.next = i + 1;
        CaptureFrame { landed, step: CaptureStep::Capture(i) }
    }
}

/// One frame of the capture job, as `drive_publish_captures` runs it.
pub open spec fn capture_step(
    j: PublishCaptureJob,
    budget_exhausted: bool,
    observed_size: Option<u64>,
    camera_present: bool,
) -> (PublishCaptureJob, CaptureFrame) {
    if budget_exhausted {
        (j, CaptureFrame { landed: None, step: CaptureStep::Finish })
    } else {
        let size = match observed_size {
            Some(n) => if n > 0 { Some(n) } else { None },
            None => None,
        };
        let lands = j.waiting_on is Some && size is Some && j.last_size == size;
        if j.waiting_on is Some && !lands {
            (PublishCaptureJob { last_size: size, ..j }, CaptureFrame { landed: None, step: CaptureStep::Wait })
        } else {
            let landed = if lands { j.waiting_on } else { None };
            if j.next >= j.poses || !camera_present {
                (
                    PublishCaptureJob { waiting_on: None, last_size: None, ..j },
                    CaptureFrame { landed, step: CaptureStep::Finish },
                )
            } else {
                (
                    PublishCaptureJob { next: (j.next + 1) as usize, waiting_on: Some(j.next), last_size: None, ..j },
                    CaptureFrame { landed, step: CaptureStep::Capture(j.next) },
                )
            }
        }
    }
}

/// The job keeps its bookkeeping, and shoots poses in order, each at most
/// once: a capture is only ever requested for the next pose, which then
/// moves on by one; a capture that lands is the one the job waited on.
pub proof fn law_captures_in_order(j: PublishCaptureJob, budget_exhausted: bool, observed_size: Option<u64>, camera_present: bool)
    requires
        j.wf(),
    ensures
        ({
            let (after, frame) = capture_step(j, budget_exhausted, observed_size, camera_present);
            &&& after.wf()
            &&& after.poses == j.poses
            &&& (frame.step matches CaptureStep::Capture(i) ==> i == j.next && i < j.poses && after.next == i + 1)
            &&& (!(frame.step is Capture) ==> after.next == j.next)
            &&& (frame.landed is Some ==> frame.landed == j.waiting_on)
        }),
{
}

/// The job finishes only past its budget, once every pose was shot, or
/// when the camera is gone.
pub proof fn law_finish_has_a_reason(j: PublishCaptureJob, budget_exhausted: bool, observed_size: Option<u64>, camera_present: bool)
    requires
        j.wf(),
        capture_step(j, budget_exhausted, observed_size, camera_present).1.step is Finish,
    ensures
        budget_exhausted || j.next >= j.poses || !camera_present,
{
}

} // verus!
