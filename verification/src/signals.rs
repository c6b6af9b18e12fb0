//! Off-platform signals in a dossier's text: links, Discord invites, email
//! addresses and phone-shaped numbers. Simple hand-rolled scanners; a false
//! positive costs one classifier question, not a listing.
//!
//! Positions and lengths are counted in characters; where the scanners cap
//! a link at a number of bytes, the bytes are those of the text's UTF-8
//! encoding.

use vstd::prelude::*;
use crate::moderation::{dedup_signals, deduped_signals, ScriptEntry, Signals, strs};
use crate::text::{chars_of, string_of, is_ws, is_whitespace, is_digit, ascii_lower_seq, lowercase_ascii, trim, trimmed};

verus! {

/// The number of bytes `c` takes in UTF-8.
pub open spec fn utf8_len(c: char) -> nat {
    if (c as u32) < 0x80 {
        1
    } else if (c as u32) < 0x800 {
        2
    } else if (c as u32) < 0x10000 {
        3
    } else {
        4
    }
}

/// The number of bytes `s` takes in UTF-8.
pub open spec fn byte_len(s: Seq<char>) -> nat
    decreases s.len(),
{
    if s.len() == 0 {
        0
    } else {
        byte_len(s.drop_last()) + utf8_len(s.last())
    }
}

/// The length of the longest prefix of `s` whose characters all satisfy
/// `keep`.
pub open spec fn run_len(s: Seq<char>, keep: spec_fn(char) -> bool) -> nat
    decreases s.len(),
{
    if s.len() == 0 || !keep(s[0]) {
        0
    } else {
        1 + run_len(s.drop_first(), keep)
    }
}

/// The length of the longest suffix of `s` whose characters all satisfy
/// `keep`.
pub open spec fn back_run_len(s: Seq<char>, keep: spec_fn(char) -> bool) -> nat
    decreases s.len(),
{
    if s.len() == 0 || !keep(s.last()) {
        0
    } else {
        1 + back_run_len(s.drop_last(), keep)
    }
}

proof fn lemma_run_len(s: Seq<char>, keep: spec_fn(char) -> bool, k: int)
    requires
        0 <= k <= s.len(),
        forall|j: int| 0 <= j < k ==> keep(#[trigger] s[j]),
        k == s.len() || !keep(s[k]),
    ensures
        run_len(s, keep) == k,
    decreases k,
{
    if k > 0 {
        lemma_run_len(s.drop_first(), keep, k - 1);
    }
}

proof fn lemma_back_run_len(s: Seq<char>, keep: spec_fn(char) -> bool, k: int)
    requires
        0 <= k <= s.len(),
        forall|j: int| s.len() - k <= j < s.len() ==> keep(#[trigger] s[j]),
        k == s.len() || !keep(s[s.len() - k - 1]),
    ensures
        back_run_len(s, keep) == k,
    decreases k,
{
    if k > 0 {
        lemma_back_run_len(s.drop_last(), keep, k - 1);
    }
}

/// The characters a link runs until: whitespace, quotes, `)`, `>`, a
/// backtick.
pub open spec fn is_url_stop(c: char) -> bool {
    is_ws(c) || c == '"' || c == '\'' || c == ')' || c == '>' || c == '`'
}

/// Whether `s` begins with `p`.
pub open spec fn starts_with(s: Seq<char>, p: Seq<char>) -> bool {
    p.len() <= s.len() && s.subrange(0, p.len() as int) == p
}

/// Whether a link starts at `i`: `http://` or `https://`.
pub open spec fn is_url_start(text: Seq<char>, i: int) -> bool {
    starts_with(text.skip(i), "http://"@) || starts_with(text.skip(i), "https://"@)
}

/// The link text from `i` to the next stop character.
pub open spec fn url_run(text: Seq<char>, i: int) -> Seq<char> {
    let t = text.skip(i);
    t.subrange(0, run_len(t, |c: char| !is_url_stop(c)) as int)
}

/// How many leading characters of `s` fit in `budget` bytes.
pub open spec fn cut_len(s: Seq<char>, budget: nat) -> nat
    decreases s.len(),
{
    if s.len() == 0 || utf8_len(s[0]) > budget {
        0
    } else {
        1 + cut_len(s.drop_first(), (budget - utf8_len(s[0])) as nat)
    }
}

/// Whether cutting `s` at `budget` bytes falls between characters: either
/// `s` fits, or a character boundary lies exactly at `budget`.
pub open spec fn cut_is_clean(s: Seq<char>, budget: nat) -> bool
    decreases s.len(),
{
    if budget == 0 || s.len() == 0 {
        true
    } else if utf8_len(s[0]) <= budget {
        cut_is_clean(s.drop_first(), (budget - utf8_len(s[0])) as nat)
    } else {
        false
    }
}

/// Most bytes kept of a link.
pub const MAX_URL_BYTES: usize = 200;

/// Most characters kept of an invite.
pub const MAX_INVITE_CHARS: usize = 60;

/// The link found at `i`, if one starts there: its run cut to at most 200
/// bytes, kept when longer than ten bytes.
pub open spec fn url_at(text: Seq<char>, i: int) -> Option<Seq<char>> {
    if is_url_start(text, i) {
        let run = url_run(text, i);
        let url = run.subrange(0, cut_len(run, MAX_URL_BYTES as nat) as int);
        if byte_len(url) > 10 { Some(url) } else { None }
    } else {
        None
    }
}

/// Every link start cuts cleanly at 200 bytes.
pub open spec fn url_cuts_clean(text: Seq<char>) -> bool {
    forall|i: int| 0 <= i < text.len() && is_url_start(text, i) ==> cut_is_clean(#[trigger] url_run(text, i), MAX_URL_BYTES as nat)
}

/// An ASCII letter or digit.
pub open spec fn is_alnum(c: char) -> bool {
    ('0' <= c && c <= '9') || ('a' <= c && c <= 'z') || ('A' <= c && c <= 'Z')
}

/// A character of an invite: ASCII letters and digits, `.`, `/`, `-`.
pub open spec fn is_invite_char(c: char) -> bool {
    is_alnum(c) || c == '.' || c == '/' || c == '-'
}

/// Whether an invite starts at `i`: `discord.gg/` in any ASCII case.
pub open spec fn is_invite_start(text: Seq<char>, i: int) -> bool {
    i + 11 <= text.len() && ascii_lower_seq(text.subrange(i, i + 11)) == "discord.gg/"@
}

/// The invite found at `i`, if one starts there: its run of invite
/// characters, at most 60 of them.
pub open spec fn invite_at(text: Seq<char>, i: int) -> Option<Seq<char>> {
    if is_invite_start(text, i) {
        let t = text.skip(i);
        let e = run_len(t, |c: char| is_invite_char(c));
        Some(t.subrange(0, if e > MAX_INVITE_CHARS { MAX_INVITE_CHARS as int } else { e as int }))
    } else {
        None
    }
}

/// A character of an address's local part.
pub open spec fn is_local_char(c: char) -> bool {
    is_alnum(c) || c == '.' || c == '_' || c == '+' || c == '-'
}

/// A character of an address's domain.
pub open spec fn is_domain_char(c: char) -> bool {
    is_alnum(c) || c == '.' || c == '-'
}

/// The address around the `@` at `i`, if it is one: at least two
/// local-part characters before, and after it a domain of at least four
/// characters holding a dot and not ending in one.
pub open spec fn email_at(text: Seq<char>, i: int) -> Option<Seq<char>> {
    if 0 <= i < text.len() && text[i] == '@' {
        let bl = back_run_len(text.subrange(0, i), |c: char| is_local_char(c)) as int;
        let al = run_len(text.skip(i + 1), |c: char| is_domain_char(c)) as int;
        let after = text.subrange(i + 1, i + 1 + al);
        if bl >= 2 && after.contains('.') && al >= 4 && after.last() != '.' {
            Some(text.subrange(i - bl, i + 1 + al))
        } else {
            None
        }
    } else {
        None
    }
}

/// The signals of one kind found at the positions below `n`, in order.
pub open spec fn found_below(text: Seq<char>, n: int, at: spec_fn(Seq<char>, int) -> Option<Seq<char>>) -> Seq<Seq<char>>
    decreases n,
{
    if n <= 0 {
        Seq::empty()
    } else {
        let before = found_below(text, n - 1, at);
        match at(text, n - 1) {
            Some(s) => before.push(s),
            None => before,
        }
    }
}

/// A separator inside a phone number.
pub open spec fn is_phone_sep(c: char) -> bool {
    c == ' ' || c == '-' || c == '(' || c == ')' || c == '+'
}

/// Scan a phone-shaped run from `j` with the digits and separators seen so
/// far: where it ends, and how many digits and separators it holds. The
/// run stops at any other character, or at a seventh separator.
pub open spec fn phone_scan(text: Seq<char>, j: int, digits: nat, seps: nat) -> (int, nat, nat)
    decreases text.len() - j,
{
    if j < 0 || j >= text.len() {
        (j, digits, seps)
    } else if is_digit(text[j]) {
        phone_scan(text, j + 1, digits + 1, seps)
    } else if is_phone_sep(text[j]) {
        if seps + 1 > 6 {
            (j, digits, seps + 1)
        } else {
            phone_scan(text, j + 1, digits, seps + 1)
        }
    } else {
        (j, digits, seps)
    }
}

/// The phone-shaped numbers from position `i` on: a run starting at a
/// digit or `+` counts when it holds 10 to 15 digits and at least one
/// separator; it is kept trimmed, and scanning resumes where it ended.
pub open spec fn phones_from(text: Seq<char>, i: int) -> Seq<Seq<char>>
    decreases text.len() - i,
{
    if i < 0 || i >= text.len() {
        Seq::empty()
    } else if is_digit(text[i]) || text[i] == '+' {
        proof {
            lemma_phone_scan_bounds(text, i, 0, 0);
        }
        let (j, d, s) = phone_scan(text, i, 0, 0);
        let next = if j > i + 1 { j } else { i + 1 };
        let here: Seq<Seq<char>> = if 10 <= d <= 15 && s >= 1 { seq![trim(text.subrange(i, j))] } else { Seq::empty() };
        here + phones_from(text, next)
    } else {
        phones_from(text, i + 1)
    }
}

pub proof fn lemma_phone_scan_bounds(text: Seq<char>, j: int, digits: nat, seps: nat)
    requires
        0 <= j <= text.len(),
    ensures
        j <= phone_scan(text, j, digits, seps).0 <= text.len(),
        phone_scan(text, j, digits, seps).1 >= digits,
    decreases text.len() - j,
{
    if j < text.len() {
        if is_digit(text[j]) {
            lemma_phone_scan_bounds(text, j + 1, digits + 1, seps);
        } else if is_phone_sep(text[j]) && seps + 1 <= 6 {
            lemma_phone_scan_bounds(text, j + 1, digits, seps + 1);
        }
    }
}

/// The number of bytes `c` takes in UTF-8.
pub(crate) fn char_utf8_len(c: char) -> (r: usize)
    ensures
        r as nat == utf8_len(c),
{
    let u = c as u32;
    if u < 0x80 {
        1
    } else if u < 0x800 {
        2
    } else if u < 0x10000 {
        3
    } else {
        4
    }
}

/// Whether `v` holds `p` from position `i`.
fn holds_at(v: &Vec<char>, i: usize, p: &Vec<char>) -> (r: bool)
    requires
        i <= v@.len(),
    ensures
        r == starts_with(v@.skip(i as int), p@),
{
    let n = v.len();
    if p.len() > n - i {
        return false;
    }
    let mut k: usize = 0;
    while k < p.len()
        invariant
            k <= p@.len(),
            n == v@.len(),
            i <= n,
            p@.len() <= n - i,
            forall|m: int| 0 <= m < k ==> v@[i + m] == p@[m],
        decreases p.len() - k,
    {
        if v[i + k] != p[k] {
            proof {
                assert(v@.skip(i as int).subrange(0, p@.len() as int)[k as int] != p@[k as int]);
            }
            return false;
        }
        k = k + 1;
    }
    proof {
        assert(v@.skip(i as int).subrange(0, p@.len() as int) =~= p@);
    }
    true
}

/// The characters of `v` from `a` to `b` as a string.
fn slice_string(v: &Vec<char>, a: usize, b: usize) -> (r: String)
    requires
        a <= b <= v@.len(),
    ensures
        r@ == v@.subrange(a as int, b as int),
{
    let mut out: Vec<char> = Vec::new();
    let mut k: usize = a;
    while k < b
        invariant
            a <= k <= b,
            b <= v@.len(),
            out@ == v@.subrange(a as int, k as int),
        decreases b - k,
    {
        out.push(v[k]);
        k = k + 1;
    }
    string_of(&out)
}

/// The link starting at `i`, where one starts.
fn url_from(v: &Vec<char>, i: usize) -> (r: Option<String>)
    requires
        i < v@.len(),
        is_url_start(v@, i as int),
    ensures
        match r {
            Some(s) => url_at(v@, i as int) == Some(s@),
            None => url_at(v@, i as int) is None,
        },
{
    let ghost t = v@.skip(i as int);
    let mut k: usize = i;
    while k < v.len() && !(is_whitespace(v[k]) || v[k] == '"' || v[k] == '\'' || v[k] == ')' || v[k] == '>' || v[k] == '`')
        invariant
            i <= k <= v@.len(),
            t == v@.skip(i as int),
            forall|m: int| 0 <= m < k - i ==> !is_url_stop(#[trigger] t[m]),
        decreases v.len() - k,
    {
        k = k + 1;
    }
    proof {
        lemma_run_len(t, |c: char| !is_url_stop(c), k - i);
    }
    let ghost run = t.subrange(0, (k - i) as int);
    assert(run == url_run(v@, i as int));
    let mut budget: usize = MAX_URL_BYTES;
    let mut m: usize = i;
    proof {
        assert(run.subrange(0, 0) =~= Seq::<char>::empty());
        assert(run.skip(0) =~= run);
        assert(run =~= v@.subrange(i as int, k as int));
    }
    while m < k && char_utf8_len(v[m]) <= budget
        invariant
            i <= m <= k,
            k <= v@.len(),
            budget <= MAX_URL_BYTES,
            run == v@.subrange(i as int, k as int),
            cut_len(run, MAX_URL_BYTES as nat) == (m - i) + cut_len(run.skip(m - i), budget as nat),
            byte_len(run.subrange(0, m - i)) + budget == MAX_URL_BYTES,
        decreases k - m,
    {
        let u = char_utf8_len(v[m]);
        proof {
            let s = run.skip(m - i);
            assert(s[0] == v@[m as int]);
            assert(s.drop_first() =~= run.skip(m - i + 1));
            assert(run.subrange(0, m - i + 1).drop_last() =~= run.subrange(0, m - i));
            assert(run.subrange(0, m - i + 1).last() == v@[m as int]);
        }
        budget = budget - u;
        m = m + 1;
    }
    proof {
        let s = run.skip(m - i);
        if m < k {
            assert(s[0] == v@[m as int]);
        }
        assert(cut_len(s, budget as nat) == 0);
    }
    let bytes = MAX_URL_BYTES - budget;
    if bytes > 10 {
        Some(slice_string(v, i, m))
    } else {
        None
    }
}

/// Whether the link starting at `i` cuts cleanly at 200 bytes.
fn url_cut_clean_at(v: &Vec<char>, i: usize) -> (r: bool)
    requires
        i < v@.len(),
    ensures
        r == cut_is_clean(url_run(v@, i as int), MAX_URL_BYTES as nat),
{
    let ghost t = v@.skip(i as int);
    let mut k: usize = i;
    while k < v.len() && !(is_whitespace(v[k]) || v[k] == '"' || v[k] == '\'' || v[k] == ')' || v[k] == '>' || v[k] == '`')
        invariant
            i <= k <= v@.len(),
            t == v@.skip(i as int),
            forall|m: int| 0 <= m < k - i ==> !is_url_stop(#[trigger] t[m]),
        decreases v.len() - k,
    {
        k = k + 1;
    }
    proof {
        lemma_run_len(t, |c: char| !is_url_stop(c), k - i);
    }
    let ghost run = t.subrange(0, (k - i) as int);
    assert(run == url_run(v@, i as int));
    let mut budget: usize = MAX_URL_BYTES;
    let mut m: usize = i;
    proof {
        assert(run.skip(0) =~= run);
        assert(run =~= v@.subrange(i as int, k as int));
    }
    while budget > 0 && m < k
        invariant
            i <= m <= k,
            k <= v@.len(),
            run == v@.subrange(i as int, k as int),
            run == url_run(v@, i as int),
            cut_is_clean(run, MAX_URL_BYTES as nat) == cut_is_clean(run.skip(m - i), budget as nat),
        decreases k - m,
    {
        let u = char_utf8_len(v[m]);
        proof {
            let s = run.skip(m - i);
            assert(s.len() > 0);
            assert(s[0] == v@[m as int]);
            assert(s.drop_first() =~= run.skip(m - i + 1));
        }
        if u > budget {
            proof {
                assert(!cut_is_clean(run.skip(m - i), budget as nat));
            }
            return false;
        }
        budget = budget - u;
        m = m + 1;
    }
    proof {
        if m == k {
            assert(run.skip(m - i).len() == 0);
        }
    }
    true
}

/// Whether every link in the text cuts cleanly at 200 bytes, so no link's
/// cut falls inside a character.
pub fn url_cuts_are_clean(text: &str) -> (r: bool)
    ensures
        r == url_cuts_clean(text@),
{
    let v = chars_of(text);
    let http = chars_of("http://");
    let https = chars_of("https://");
    let mut i: usize = 0;
    while i < v.len()
        invariant
            i <= v@.len(),
            v@ == text@,
            http@ == "http://"@,
            https@ == "https://"@,
            forall|j: int| 0 <= j < i && is_url_start(v@, j) ==> cut_is_clean(#[trigger] url_run(v@, j), MAX_URL_BYTES as nat),
        decreases v.len() - i,
    {
        if holds_at(&v, i, &http) || holds_at(&v, i, &https) {
            if !url_cut_clean_at(&v, i) {
                return false;
            }
        }
        i = i + 1;
    }
    true
}

/// The invite starting at `i`, where one starts.
fn invite_from(v: &Vec<char>, i: usize) -> (r: String)
    requires
        i < v@.len(),
        is_invite_start(v@, i as int),
    ensures
        invite_at(v@, i as int) == Some(r@),
{
    let ghost t = v@.skip(i as int);
    let mut k: usize = i;
    while k < v.len() && (('0' <= v[k] && v[k] <= '9') || ('a' <= v[k] && v[k] <= 'z') || ('A' <= v[k] && v[k] <= 'Z')
        || v[k] == '.' || v[k] == '/' || v[k] == '-')
        invariant
            i <= k <= v@.len(),
            t == v@.skip(i as int),
            forall|m: int| 0 <= m < k - i ==> is_invite_char(#[trigger] t[m]),
        decreases v.len() - k,
    {
        k = k + 1;
    }
    proof {
        lemma_run_len(t, |c: char| is_invite_char(c), k - i);
    }
    let end = if k - i > MAX_INVITE_CHARS { i + MAX_INVITE_CHARS } else { k };
    let s = slice_string(v, i, end);
    proof {
        assert(s@ =~= t.subrange(0, (end - i) as int));
    }
    s
}

/// The address around the `@` at `i`, if it is one.
fn email_from(v: &Vec<char>, i: usize) -> (r: Option<String>)
    requires
        i < v@.len(),
        v@[i as int] == '@',
        v@.len() <= usize::MAX,
    ensures
        match r {
            Some(s) => email_at(v@, i as int) == Some(s@),
            None => email_at(v@, i as int) is None,
        },
{
    let mut b: usize = i;
    while b > 0 && (('0' <= v[b - 1] && v[b - 1] <= '9') || ('a' <= v[b - 1] && v[b - 1] <= 'z')
        || ('A' <= v[b - 1] && v[b - 1] <= 'Z') || v[b - 1] == '.' || v[b - 1] == '_' || v[b - 1] == '+'
        || v[b - 1] == '-')
        invariant
            b <= i,
            i < v@.len(),
            forall|m: int| b <= m < i ==> is_local_char(#[trigger] v@[m]),
        decreases b,
    {
        b = b - 1;
    }
    proof {
        let pre = v@.subrange(0, i as int);
        assert forall|m: int| pre.len() - (i - b) <= m < pre.len() implies is_local_char(#[trigger] pre[m]) by {
            assert(pre[m] == v@[m]);
        }
        if b > 0 {
            assert(pre[pre.len() - (i - b) - 1] == v@[b - 1]);
        }
        lemma_back_run_len(pre, |c: char| is_local_char(c), (i - b) as int);
    }
    let mut a: usize = i + 1;
    let mut has_dot = false;
    while a < v.len() && (('0' <= v[a] && v[a] <= '9') || ('a' <= v[a] && v[a] <= 'z') || ('A' <= v[a] && v[a] <= 'Z')
        || v[a] == '.' || v[a] == '-')
        invariant
            i + 1 <= a <= v@.len(),
            forall|m: int| i + 1 <= m < a ==> is_domain_char(#[trigger] v@[m]),
            has_dot == exists|m: int| i + 1 <= m < a && v@[m] == '.',
        decreases v.len() - a,
    {
        if v[a] == '.' {
            has_dot = true;
        }
        a = a + 1;
    }
    let ghost t = v@.skip(i + 1);
    proof {
        assert forall|m: int| 0 <= m < a - (i + 1) implies is_domain_char(#[trigger] t[m]) by {
            assert(t[m] == v@[i + 1 + m]);
        }
        if a < v@.len() {
            assert(t[a - (i + 1)] == v@[a as int]);
        }
        lemma_run_len(t, |c: char| is_domain_char(c), a - (i + 1));
    }
    let ghost after = v@.subrange(i + 1, a as int);
    proof {
        if has_dot {
            let m = choose|m: int| i + 1 <= m < a && v@[m] == '.';
            assert(after[m - (i + 1)] == '.');
        }
        if after.contains('.') {
            let m = choose|m: int| 0 <= m < after.len() && after[m] == '.';
            assert(v@[i + 1 + m] == '.');
        }
    }
    let al = a - (i + 1);
    if i - b >= 2 && has_dot && al >= 4 && v[a - 1] != '.' {
        proof {
            assert(after.last() == v@[a - 1]);
        }
        Some(slice_string(v, b, a))
    } else {
        proof {
            if al >= 4 {
                assert(after.last() == v@[a - 1]);
            }
        }
        None
    }
}

/// Scan a phone-shaped run from `i`.
fn phone_run(v: &Vec<char>, i: usize) -> (r: (usize, usize, usize))
    requires
        i < v@.len(),
    ensures
        (r.0 as int, r.1 as nat, r.2 as nat) == phone_scan(v@, i as int, 0, 0),
{
    let mut j: usize = i;
    let mut digits: usize = 0;
    let mut seps: usize = 0;
    while j < v.len()
        invariant
            i <= j <= v@.len(),
            digits <= j - i,
            seps <= 6,
            phone_scan(v@, i as int, 0, 0) == phone_scan(v@, j as int, digits as nat, seps as nat),
        decreases v.len() - j,
    {
        let c = v[j];
        if '0' <= c && c <= '9' {
            digits = digits + 1;
        } else if c == ' ' || c == '-' || c == '(' || c == ')' || c == '+' {
            if seps + 1 > 6 {
                return (j, digits, seps + 1);
            }
            seps = seps + 1;
        } else {
            return (j, digits, seps);
        }
        j = j + 1;
    }
    (j, digits, seps)
}

/// Append to `signals` every link, invite, address and phone-shaped number
/// found in `text`, each kind in the order found.
pub fn scan_signals(text: &str, signals: &mut Signals)
    requires
        url_cuts_clean(text@),
    ensures
        strs(final(signals).urls@) == strs(old(signals).urls@) + found_below(text@, text@.len() as int, |t: Seq<char>, i: int| url_at(t, i)),
        strs(final(signals).discord_invites@) == strs(old(signals).discord_invites@) + found_below(text@, text@.len() as int, |t: Seq<char>, i: int| invite_at(t, i)),
        strs(final(signals).emails@) == strs(old(signals).emails@) + found_below(text@, text@.len() as int, |t: Seq<char>, i: int| email_at(t, i)),
        strs(final(signals).phones@) == strs(old(signals).phones@) + phones_from(text@, 0),
{
    let v = chars_of(text);
    let lower = lowercase_ascii(text);
    let http = chars_of("http://");
    let https = chars_of("https://");
    let discord = chars_of("discord.gg/");
    proof {
        reveal_strlit("discord.gg/");
    }
    let ghost url_fn = |t: Seq<char>, i: int| url_at(t, i);
    let ghost invite_fn = |t: Seq<char>, i: int| invite_at(t, i);
    let ghost email_fn = |t: Seq<char>, i: int| email_at(t, i);
    let ghost urls0 = strs(signals.urls@);
    let ghost invites0 = strs(signals.discord_invites@);
    let ghost emails0 = strs(signals.emails@);
    let mut i: usize = 0;
    while i < v.len()
        invariant
            i <= v@.len(),
            v@ == text@,
            lower@ == ascii_lower_seq(text@),
            http@ == "http://"@,
            https@ == "https://"@,
            discord@ == "discord.gg/"@,
            url_cuts_clean(text@),
            strs(signals.urls@) == urls0 + found_below(text@, i as int, url_fn),
            strs(signals.discord_invites@) == invites0 + found_below(text@, i as int, invite_fn),
            strs(signals.emails@) == emails0 + found_below(text@, i as int, email_fn),
            signals.phones@ == old(signals).phones@,
            urls0 == strs(old(signals).urls@),
            invites0 == strs(old(signals).discord_invites@),
            emails0 == strs(old(signals).emails@),
            url_fn == (|t: Seq<char>, i: int| url_at(t, i)),
            invite_fn == (|t: Seq<char>, i: int| invite_at(t, i)),
            email_fn == (|t: Seq<char>, i: int| email_at(t, i)),
        decreases v.len() - i,
    {
        if holds_at(&v, i, &http) || holds_at(&v, i, &https) {
            let u = url_from(&v, i);
            if let Some(s) = u {
                let ghost before = signals.urls@;
                signals.urls.push(s);
                proof {
                    assert(strs(signals.urls@) =~= strs(before).push(s@));
                }
            }
        } else {
            proof {
                assert(url_at(v@, i as int) is None);
            }
        }
        if holds_at(&lower, i, &discord) && v.len() - i >= 11 {
            proof {
                reveal_strlit("discord.gg/");
                assert(discord@.len() == 11);
                assert(lower@.skip(i as int).subrange(0, 11) == discord@);
                assert(ascii_lower_seq(text@.subrange(i as int, i + 11)) =~= lower@.skip(i as int).subrange(0, 11));
                assert(is_invite_start(v@, i as int));
            }
            let s = invite_from(&v, i);
            let ghost before = signals.discord_invites@;
            signals.discord_invites.push(s);
            proof {
                assert(strs(signals.discord_invites@) =~= strs(before).push(s@));
            }
        } else {
            proof {
                reveal_strlit("discord.gg/");
                if i + 11 <= v@.len() {
                    assert(ascii_lower_seq(text@.subrange(i as int, i + 11)) =~= lower@.skip(i as int).subrange(0, 11));
                }
                assert(invite_at(v@, i as int) is None);
            }
        }
        if v[i] == '@' {
            let e = email_from(&v, i);
            if let Some(s) = e {
                let ghost before = signals.emails@;
                signals.emails.push(s);
                proof {
                    assert(strs(signals.emails@) =~= strs(before).push(s@));
                }
            }
        }
        i = i + 1;
    }
    let ghost phones0 = strs(signals.phones@);
    let mut i: usize = 0;
    proof {
        assert(phones0 =~= phones0 + Seq::<Seq<char>>::empty());
    }
    while i < v.len()
        invariant
            i <= v@.len(),
            v@ == text@,
            strs(signals.phones@) + phones_from(text@, i as int) == phones0 + phones_from(text@, 0),
            strs(signals.urls@) == strs(old(signals).urls@) + found_below(text@, text@.len() as int, |t: Seq<char>, i: int| url_at(t, i)),
            strs(signals.discord_invites@) == strs(old(signals).discord_invites@) + found_below(text@, text@.len() as int, |t: Seq<char>, i: int| invite_at(t, i)),
            strs(signals.emails@) == strs(old(signals).emails@) + found_below(text@, text@.len() as int, |t: Seq<char>, i: int| email_at(t, i)),
            phones0 == strs(old(signals).phones@),
        decreases v.len() - i,
    {
        let c = v[i];
        if ('0' <= c && c <= '9') || c == '+' {
            let (j, d, s) = phone_run(&v, i);
            proof {
                lemma_phone_scan_bounds(v@, i as int, 0, 0);
            }
            let next = if j > i + 1 { j } else { i + 1 };
            let ghost before = signals.phones@;
            if 10 <= d && d <= 15 && s >= 1 {
                let piece = chars_of(slice_string(&v, i, j).as_str());
                let t = trimmed(&piece);
                signals.phones.push(string_of(&t));
                proof {
                    assert(strs(signals.phones@) =~= strs(before).push(trim(text@.subrange(i as int, j as int))));
                    assert(strs(signals.phones@) + phones_from(text@, next as int) =~= strs(before) + phones_from(text@, i as int));
                }
            } else {
                proof {
                    assert(phones_from(text@, i as int) =~= phones_from(text@, next as int));
                }
            }
            i = next;
        } else {
            i = i + 1;
        }
    }
}

// ============================================================================
// A dossier's signals
// ============================================================================

pub open spec fn urls_in(t: Seq<char>) -> Seq<Seq<char>> {
    found_below(t, t.len() as int, |t: Seq<char>, i: int| url_at(t, i))
}

pub open spec fn invites_in(t: Seq<char>) -> Seq<Seq<char>> {
    found_below(t, t.len() as int, |t: Seq<char>, i: int| invite_at(t, i))
}

pub open spec fn emails_in(t: Seq<char>) -> Seq<Seq<char>> {
    found_below(t, t.len() as int, |t: Seq<char>, i: int| email_at(t, i))
}

pub open spec fn phones_in(t: Seq<char>) -> Seq<Seq<char>> {
    phones_from(t, 0)
}

/// What one kind of scan finds over several texts, text by text.
pub open spec fn found_in_all(texts: Seq<Seq<char>>, found: spec_fn(Seq<char>) -> Seq<Seq<char>>) -> Seq<Seq<char>>
    decreases texts.len(),
{
    if texts.len() == 0 {
        Seq::empty()
    } else {
        found_in_all(texts.drop_last(), found) + found(texts.last())
    }
}

/// The texts a dossier is scanned in, in order: the scene's strings, each
/// script's kept source, and the listing's description.
pub open spec fn dossier_texts(strings: Seq<String>, scripts: Seq<ScriptEntry>, description: Seq<char>) -> Seq<Seq<char>> {
    strs(strings) + scripts.map_values(|e: ScriptEntry| e.source@) + seq![description]
}

/// Every text cuts its links cleanly.
pub open spec fn all_cut_clean(texts: Seq<Seq<char>>) -> bool {
    forall|i: int| 0 <= i < texts.len() ==> url_cuts_clean(#[trigger] texts[i])
}

fn scan_text(text: &str, signals: &mut Signals, Ghost(done): Ghost<Seq<Seq<char>>>)
    requires
        url_cuts_clean(text@),
        strs(old(signals).urls@) == found_in_all(done, |t: Seq<char>| urls_in(t)),
        strs(old(signals).discord_invites@) == found_in_all(done, |t: Seq<char>| invites_in(t)),
        strs(old(signals).emails@) == found_in_all(done, |t: Seq<char>| emails_in(t)),
        strs(old(signals).phones@) == found_in_all(done, |t: Seq<char>| phones_in(t)),
    ensures
        strs(final(signals).urls@) == found_in_all(done.push(text@), |t: Seq<char>| urls_in(t)),
        strs(final(signals).discord_invites@) == found_in_all(done.push(text@), |t: Seq<char>| invites_in(t)),
        strs(final(signals).emails@) == found_in_all(done.push(text@), |t: Seq<char>| emails_in(t)),
        strs(final(signals).phones@) == found_in_all(done.push(text@), |t: Seq<char>| phones_in(t)),
{
    scan_signals(text, signals);
    proof {
        assert(done.push(text@).drop_last() =~= done);
    }
}

/// The off-platform signals of a dossier: every link, invite, address and
/// phone-shaped number in the scene's strings, then in the scripts, then
/// in the listing's description, each kind kept to its first occurrences,
/// at most `MAX_SIGNALS` of each.
pub fn dossier_signals(strings: &Vec<String>, scripts: &Vec<ScriptEntry>, description: &str) -> (r: Signals)
    requires
        all_cut_clean(dossier_texts(strings@, scripts@, description@)),
    ensures
        strs(r.urls@) == deduped_signals(found_in_all(dossier_texts(strings@, scripts@, description@), |t: Seq<char>| urls_in(t))),
        strs(r.discord_invites@) == deduped_signals(found_in_all(dossier_texts(strings@, scripts@, description@), |t: Seq<char>| invites_in(t))),
        strs(r.emails@) == deduped_signals(found_in_all(dossier_texts(strings@, scripts@, description@), |t: Seq<char>| emails_in(t))),
        strs(r.phones@) == deduped_signals(found_in_all(dossier_texts(strings@, scripts@, description@), |t: Seq<char>| phones_in(t))),
{
    let ghost texts = dossier_texts(strings@, scripts@, description@);
    let ghost ns = strings@.len() as int;
    let ghost nc = scripts@.len() as int;
    let mut signals = Signals::new();
    proof {
        assert(strs(signals.urls@) =~= Seq::<Seq<char>>::empty());
        assert(strs(signals.discord_invites@) =~= Seq::<Seq<char>>::empty());
        assert(strs(signals.emails@) =~= Seq::<Seq<char>>::empty());
        assert(strs(signals.phones@) =~= Seq::<Seq<char>>::empty());
        assert(texts.subrange(0, 0).len() == 0);
    }
    let mut i: usize = 0;
    while i < strings.len()
        invariant
            i <= strings@.len(),
            ns == strings@.len(),
            nc == scripts@.len(),
            texts == dossier_texts(strings@, scripts@, description@),
            all_cut_clean(texts),
            strs(signals.urls@) == found_in_all(texts.subrange(0, i as int), |t: Seq<char>| urls_in(t)),
            strs(signals.discord_invites@) == found_in_all(texts.subrange(0, i as int), |t: Seq<char>| invites_in(t)),
            strs(signals.emails@) == found_in_all(texts.subrange(0, i as int), |t: Seq<char>| emails_in(t)),
            strs(signals.phones@) == found_in_all(texts.subrange(0, i as int), |t: Seq<char>| phones_in(t)),
        decreases strings.len() - i,
    {
        proof {
            assert(texts[i as int] == strings@[i as int]@);
            assert(texts.subrange(0, i + 1) =~= texts.subrange(0, i as int).push(strings@[i as int]@));
        }
        scan_text(strings[i].as_str(), &mut signals, Ghost(texts.subrange(0, i as int)));
        i = i + 1;
    }
    let mut k: usize = 0;
    while k < scripts.len()
        invariant
            k <= scripts@.len(),
            ns == strings@.len(),
            nc == scripts@.len(),
            texts == dossier_texts(strings@, scripts@, description@),
            all_cut_clean(texts),
            strs(signals.urls@) == found_in_all(texts.subrange(0, ns + k), |t: Seq<char>| urls_in(t)),
            strs(signals.discord_invites@) == found_in_all(texts.subrange(0, ns + k), |t: Seq<char>| invites_in(t)),
            strs(signals.emails@) == found_in_all(texts.subrange(0, ns + k), |t: Seq<char>| emails_in(t)),
            strs(signals.phones@) == found_in_all(texts.subrange(0, ns + k), |t: Seq<char>| phones_in(t)),
        decreases scripts.len() - k,
    {
        proof {
            assert(texts[ns + k] == scripts@[k as int].source@);
            assert(texts.subrange(0, ns + k + 1) =~= texts.subrange(0, ns + k).push(scripts@[k as int].source@));
        }
        scan_text(scripts[k].source.as_str(), &mut signals, Ghost(texts.subrange(0, ns + k)));
        k = k + 1;
    }
    proof {
        assert(texts[ns + nc] == description@);
        assert(texts =~= texts.subrange(0, ns + nc).push(description@));
    }
    scan_text(description, &mut signals, Ghost(texts.subrange(0, ns + nc)));
    dedup_signals(&mut signals);
    signals
}

/// The lines of all of a dossier's scripts.
pub open spec fn sum_lines(scripts: Seq<ScriptEntry>) -> nat
    decreases scripts.len(),
{
    if scripts.len() == 0 {
        0
    } else {
        sum_lines(scripts.drop_last()) + scripts.last().lines as nat
    }
}

/// The total of the scripts' line counts.
pub fn total_script_lines(scripts: &Vec<ScriptEntry>) -> (r: usize)
    requires
        sum_lines(scripts@) <= usize::MAX,
    ensures
        r == sum_lines(scripts@),
{
    let mut total: usize = 0;
    let mut i: usize = 0;
    while i < scripts.len()
        invariant
            i <= scripts@.len(),
            sum_lines(scripts@) <= usize::MAX,
            total == sum_lines(scripts@.subrange(0, i as int)),
        decreases scripts.len() - i,
    {
        proof {
            assert(scripts@.subrange(0, i + 1).drop_last() =~= scripts@.subrange(0, i as int));
            lemma_sum_lines_prefix(scripts@, i + 1);
        }
        total = total + scripts[i].lines;
        i = i + 1;
    }
    proof {
        assert(scripts@.subrange(0, scripts@.len() as int) =~= scripts@);
    }
    total
}

proof fn lemma_sum_lines_prefix(s: Seq<ScriptEntry>, n: int)
    requires
        0 <= n <= s.len(),
    ensures
        sum_lines(s.subrange(0, n)) <= sum_lines(s),
    decreases s.len() - n,
{
    if n < s.len() {
        lemma_sum_lines_prefix(s, n + 1);
        assert(s.subrange(0, n + 1).drop_last() =~= s.subrange(0, n));
    } else {
        assert(s.subrange(0, n) =~= s);
    }
}

/// Plain `http://` links are links as much as `https://` ones: at every
/// position where the text begins with either, a link starts, and it is
/// reported unless its (capped) text is at most ten bytes long.
pub proof fn law_both_schemes_start_links(text: Seq<char>, i: int)
    requires
        0 <= i <= text.len(),
        starts_with(text.skip(i), "http://"@) || starts_with(text.skip(i), "https://"@),
    ensures
        is_url_start(text, i),
        url_at(text, i) is None ==> byte_len(url_run(text, i).subrange(0, cut_len(url_run(text, i), MAX_URL_BYTES as nat) as int)) <= 10,
        url_at(text, i) matches Some(u) ==> byte_len(u) > 10,
{
}

} // verus!
