//! What the compositor reads of a client process in `/proc`: one variable of its
//! environment (`/proc/<pid>/environ`) and its parent chain (`/proc/<pid>/stat`). The
//! caller reads the files; this module parses them and decides.
use vstd::prelude::*;
use vstd::string::StringSliceAdditionalSpecFns;
use crate::shortcut::{char_is_whitespace, chars_of, is_unicode_whitespace, leading_ws_end};

verus! {

// ---------------------------------------------------------------------------------
// The environment block: NUL-separated `NAME=value` entries.

/// The index of the first `=` in `e` at or after `j`.
pub open spec fn eq_sign_from(e: Seq<u8>, j: int) -> Option<int>
    decreases e.len() - j,
{
    if j < 0 || j >= e.len() {
        None
    } else if e[j] == 0x3d {
        Some(j)
    } else {
        eq_sign_from(e, j + 1)
    }
}

/// The value of one environment entry when its name (the part before its first `=`)
/// is `key`.
pub open spec fn entry_value(entry: Seq<u8>, key: Seq<u8>) -> Option<Seq<u8>> {
    match eq_sign_from(entry, 0) {
        Some(p) => if entry.subrange(0, p) == key { Some(entry.subrange(p + 1, entry.len() as int)) } else { None },
        None => None,
    }
}

/// The lookup of `key` in the entries of `b` from the entry that starts at `start`,
/// scanning at `i`: the value of the first entry named `key`. Entries are the pieces
/// between NUL bytes, the last one running to the end.
pub open spec fn environ_lookup_from(b: Seq<u8>, key: Seq<u8>, start: int, i: int) -> Option<Seq<u8>>
    decreases b.len() - i,
{
    if i < start || start < 0 {
        None
    } else if i >= b.len() {
        entry_value(b.subrange(start, b.len() as int), key)
    } else if b[i] == 0 {
        match entry_value(b.subrange(start, i), key) {
            Some(v) => Some(v),
            None => environ_lookup_from(b, key, i + 1, i + 1),
        }
    } else {
        environ_lookup_from(b, key, start, i + 1)
    }
}

/// The value of the first entry named `key` in the environment block `b`.
pub open spec fn spec_environ_value(b: Seq<u8>, key: Seq<u8>) -> Option<Seq<u8>> {
    environ_lookup_from(b, key, 0, 0)
}

fn entry_value_exec(b: &[u8], start: usize, end: usize, key: &[u8]) -> (r: Option<Vec<u8>>)
    requires
        start <= end <= b@.len(),
    ensures
        match r {
            Some(v) => entry_value(b@.subrange(start as int, end as int), key@) == Some(v@),
            None => entry_value(b@.subrange(start as int, end as int), key@) is None,
        },
{
    let ghost e = b@.subrange(start as int, end as int);
    let mut j = start;
    while j < end && b[j] != 0x3d
        invariant
            start <= j <= end,
            end <= b@.len(),
            e == b@.subrange(start as int, end as int),
            eq_sign_from(e, (j - start) as int) == eq_sign_from(e, 0),
        decreases end - j,
    {
        j = j + 1;
    }
    if j == end {
        return None;
    }
    // `b[start..j]` is the name.
    assert(eq_sign_from(e, 0) == Some((j - start) as int));
    if j - start != key.len() {
        assert(e.subrange(0, (j - start) as int).len() != key@.len());
        return None;
    }
    let mut k: usize = 0;
    while k < key.len()
        invariant
            e == b@.subrange(start as int, end as int),
            eq_sign_from(e, 0) == Some((j - start) as int),
            j - start == key@.len(),
            start <= j < end <= b@.len(),
            k <= key@.len(),
            forall|m: int| 0 <= m < k ==> b@[start + m] == key@[m],
        decreases key@.len() - k,
    {
        if b[start + k] != key[k] {
            assert(e.subrange(0, (j - start) as int)[k as int] != key@[k as int]);
            return None;
        }
        k = k + 1;
    }
    assert(e.subrange(0, (j - start) as int) =~= key@);
    let mut value: Vec<u8> = Vec::new();
    let mut m = j + 1;
    while m < end
        invariant
            start <= j < m <= end,
            end <= b@.len(),
            value@ == b@.subrange(j + 1, m as int),
        decreases end - m,
    {
        value.push(b[m]);
        m = m + 1;
        assert(value@ =~= b@.subrange(j + 1, m as int));
    }
    assert(value@ =~= e.subrange((j - start) + 1, e.len() as int));
    Some(value)
}

/// The raw value of the environment variable `key` in the environment block `environ`
/// (as `/proc/<pid>/environ` holds it): the value of the first `key=...` entry, or none
/// when no entry has that name.
pub fn environ_value(environ: &[u8], key: &str) -> (r: Option<Vec<u8>>)
    ensures
        match r {
            Some(v) => spec_environ_value(environ@, key.spec_bytes()) == Some(v@),
            None => spec_environ_value(environ@, key.spec_bytes()) is None,
        },
{
    let key_bytes = key.as_bytes();
    let n = environ.len();
    let mut start: usize = 0;
    let mut i: usize = 0;
    while i < n
        invariant
            n == environ@.len(),
            start <= i <= n,
            key_bytes@ == key.spec_bytes(),
            environ_lookup_from(environ@, key_bytes@, start as int, i as int)
                == spec_environ_value(environ@, key_bytes@),
        decreases n - i,
    {
        if environ[i] == 0 {
            let found = entry_value_exec(environ, start, i, key_bytes);
            if found.is_some() {
                return found;
            }
            start = i + 1;
        }
        i = i + 1;
    }
    entry_value_exec(environ, start, n, key_bytes)
}

// ---------------------------------------------------------------------------------
// `/proc/<pid>/stat`: the parent pid, the second field after the command name.

/// The index of the last `)` in `s` before `j`.
pub open spec fn last_close_paren(s: Seq<char>, j: int) -> Option<int>
    decreases j,
{
    if j <= 0 || j > s.len() {
        None
    } else if s[j - 1] == ')' {
        Some(j - 1)
    } else {
        last_close_paren(s, j - 1)
    }
}

/// The end of the run of non-whitespace characters that starts at `i`.
pub open spec fn token_end(s: Seq<char>, i: int) -> int
    decreases s.len() - i,
{
    if 0 <= i < s.len() && !is_unicode_whitespace(s[i]) { token_end(s, i + 1) } else { i }
}

/// The bounds of the `k`-th whitespace-separated field of `s` at or after `i`.
pub open spec fn field_from(s: Seq<char>, i: int, k: nat) -> Option<(int, int)>
    decreases k,
{
    let st = leading_ws_end(s, i);
    if i < 0 || st < i || st >= s.len() {
        None
    } else if k == 0 {
        Some((st, token_end(s, st)))
    } else {
        let e = token_end(s, st);
        if e <= st { None } else { field_from(s, e, (k - 1) as nat) }
    }
}

/// The decimal value of a string of ASCII digits.
pub open spec fn decimal_value(d: Seq<char>) -> nat
    decreases d.len(),
{
    if d.len() == 0 {
        0
    } else {
        decimal_value(d.drop_last()) * 10 + ((d.last() as int - '0' as int) as nat)
    }
}

pub open spec fn all_ascii_digits(d: Seq<char>) -> bool {
    forall|i: int| 0 <= i < d.len() ==> '0' <= #[trigger] d[i] <= '9'
}

/// What `u32::from_str` accepts: an optional `+`, then one or more ASCII digits whose
/// value fits in `u32`.
pub open spec fn spec_parse_u32(t: Seq<char>) -> Option<u32> {
    let d = if t.len() > 0 && t[0] == '+' { t.subrange(1, t.len() as int) } else { t };
    if d.len() > 0 && all_ascii_digits(d) && decimal_value(d) <= u32::MAX {
        Some(decimal_value(d) as u32)
    } else {
        None
    }
}

/// The parent pid that a `/proc/<pid>/stat` line reports: after the last `)` (the end of
/// the command name) come the state and then the parent pid.
pub open spec fn spec_stat_parent_pid(stat: Seq<char>) -> Option<u32> {
    match last_close_paren(stat, stat.len() as int) {
        Some(p) => match field_from(stat, p + 1, 1) {
            Some((a, b)) => spec_parse_u32(stat.subrange(a, b)),
            None => None,
        },
        None => None,
    }
}

pub(crate) proof fn lemma_decimal_value_step(d: Seq<char>, n: int)
    requires
        0 <= n < d.len(),
    ensures
        decimal_value(d.subrange(0, n + 1)) == decimal_value(d.subrange(0, n)) * 10 + ((d[n] as int - '0' as int) as nat),
{
    assert(d.subrange(0, n + 1).drop_last() =~= d.subrange(0, n));
}

pub(crate) proof fn lemma_decimal_value_grows(d: Seq<char>, n: int, m: int)
    requires
        0 <= n <= m <= d.len(),
        all_ascii_digits(d),
    ensures
        decimal_value(d.subrange(0, n)) <= decimal_value(d.subrange(0, m)),
    decreases m - n,
{
    if n < m {
        lemma_decimal_value_grows(d, n, m - 1);
        lemma_decimal_value_step(d, m - 1);
        assert('0' <= d[m - 1]);
    }
}

fn parse_u32_chars(c: &[char], lo: usize, hi: usize) -> (r: Option<u32>)
    requires
        lo <= hi <= c@.len(),
    ensures
        r == spec_parse_u32(c@.subrange(lo as int, hi as int)),
{
    let ghost t = c@.subrange(lo as int, hi as int);
    let start = if lo < hi && c[lo] == '+' { lo + 1 } else { lo };
    let ghost d = c@.subrange(start as int, hi as int);
    assert(d =~= (if t.len() > 0 && t[0] == '+' { t.subrange(1, t.len() as int) } else { t }));
    if start == hi {
        return None;
    }
    let mut acc: u64 = 0;
    let mut i = start;
    while i < hi
        invariant
            lo <= start < hi <= c@.len(),
            start <= i <= hi,
            t == c@.subrange(lo as int, hi as int),
            d == c@.subrange(start as int, hi as int),
            d == (if t.len() > 0 && t[0] == '+' { t.subrange(1, t.len() as int) } else { t }),
            all_ascii_digits(d.subrange(0, (i - start) as int)),
            acc == decimal_value(d.subrange(0, (i - start) as int)),
            acc <= u32::MAX,
        decreases hi - i,
    {
        let ch = c[i];
        if !('0' <= ch && ch <= '9') {
            assert(d[(i - start) as int] == ch);
            return None;
        }
        let digit = (ch as u32 - '0' as u32) as u64;
        proof {
            lemma_decimal_value_step(d, (i - start) as int);
        }
        let next = acc * 10 + digit;
        assert(d.subrange(0, (i - start) as int + 1).drop_last() =~= d.subrange(0, (i - start) as int));
        assert(all_ascii_digits(d.subrange(0, (i - start) as int + 1)));
        if next > 0xffff_ffffu64 {
            proof {
                if all_ascii_digits(d) {
                    lemma_decimal_value_grows(d, (i - start) as int + 1, d.len() as int);
                    assert(d.subrange(0, d.len() as int) =~= d);
                }
            }
            return None;
        }
        acc = next;
        i = i + 1;
    }
    assert(d.subrange(0, d.len() as int) =~= d);
    Some(acc as u32)
}

/// The parent pid in the text of `/proc/<pid>/stat`, none when the text does not have
/// one.
pub fn stat_parent_pid(stat: &str) -> (r: Option<u32>)
    ensures
        r == spec_stat_parent_pid(stat@),
{
    let c = chars_of(stat);
    let n = c.len();
    // The last ')'.
    let mut j = n;
    while j > 0 && c[j - 1] != ')'
        invariant
            j <= n,
            n == c@.len(),
            last_close_paren(c@, j as int) == last_close_paren(c@, n as int),
        decreases j,
    {
        j = j - 1;
    }
    if j == 0 {
        return None;
    }
    let p = j - 1;
    // Skip the state field, then find the parent pid field.
    let (a1, b1) = match next_field(c.as_slice(), p + 1) {
        Some(f) => f,
        None => return None,
    };
    let (a2, b2) = match next_field(c.as_slice(), b1) {
        Some(f) => f,
        None => return None,
    };
    proof {
        assert(field_from(c@, p + 1, 1) == field_from(c@, b1 as int, 0));
    }
    parse_u32_chars(c.as_slice(), a2, b2)
}

/// The first whitespace-separated field at or after `i`.
fn next_field(c: &[char], i: usize) -> (r: Option<(usize, usize)>)
    requires
        i <= c@.len(),
    ensures
        r == (match field_from(c@, i as int, 0) {
            Some((a, b)) => Some((a as usize, b as usize)),
            None => None,
        }),
        r matches Some((a, b)) ==> i <= a < b <= c@.len() && a == leading_ws_end(c@, i as int)
            && b == token_end(c@, a as int),
{
    let n = c.len();
    let mut a = i;
    while a < n && char_is_whitespace(c[a])
        invariant
            i <= a <= n,
            n == c@.len(),
            leading_ws_end(c@, a as int) == leading_ws_end(c@, i as int),
        decreases n - a,
    {
        a = a + 1;
    }
    if a == n {
        return None;
    }
    let mut b = a;
    while b < n && !char_is_whitespace(c[b])
        invariant
            a <= b <= n,
            n == c@.len(),
            token_end(c@, b as int) == token_end(c@, a as int),
        decreases n - b,
    {
        b = b + 1;
    }
    Some((a, b))
}

// ---------------------------------------------------------------------------------
// The parent-chain walk.

/// How many parent links the walk follows before giving up.
pub const LINEAGE_MAX_STEPS: u32 = 64;

/// What the walk asks for or concludes.
#[derive(Clone, Copy, Debug, PartialEq, Eq, Structural)]
pub enum LineageDecision {
    /// The process is the expected ancestor or one of its descendants.
    Descends,
    /// The process is not (or cannot be shown to be) a descendant.
    Unrelated,
    /// Read `/proc/<pid>/stat` of this pid and hand its text (or its absence) back.
    ReadStat(u32),
}

/// The state of a walk up the parent chain towards an expected ancestor.
#[derive(Clone, Copy, Debug, PartialEq, Eq, Structural)]
pub struct LineageWalk {
    pub expected_ancestor: u32,
    pub current: u32,
    pub steps_left: u32,
}

/// Starts the walk from `pid`: an exact match descends at once; otherwise the stat of
/// `pid` is read.
pub fn begin_lineage_walk(pid: u32, expected_ancestor: u32) -> (r: (LineageWalk, LineageDecision))
    ensures
        r.0 == (LineageWalk { expected_ancestor, current: pid, steps_left: LINEAGE_MAX_STEPS }),
        r.1 == (if pid == expected_ancestor { LineageDecision::Descends } else { LineageDecision::ReadStat(pid) }),
{
    let walk = LineageWalk { expected_ancestor, current: pid, steps_left: LINEAGE_MAX_STEPS };
    if pid == expected_ancestor {
        (walk, LineageDecision::Descends)
    } else {
        (walk, LineageDecision::ReadStat(pid))
    }
}

/// One step of the walk, given the stat text of the current process (none when it could
/// not be read) parsed to its parent pid by `stat_parent_pid`.
pub open spec fn spec_lineage_step(walk: LineageWalk, parent: Option<u32>) -> (LineageWalk, LineageDecision) {
    match parent {
        None => (walk, LineageDecision::Unrelated),
        Some(ppid) => if ppid == walk.expected_ancestor {
            (walk, LineageDecision::Descends)
        } else if ppid <= 1 || ppid == walk.current {
            (walk, LineageDecision::Unrelated)
        } else {
            let next = LineageWalk { current: ppid, steps_left: (walk.steps_left - 1) as u32, ..walk };
            if next.steps_left == 0 { (next, LineageDecision::Unrelated) } else { (next, LineageDecision::ReadStat(ppid)) }
        },
    }
}

/// Advances the walk with the stat text of its current process (`None` when the file
/// could not be read): the parent is the expected ancestor, the chain ends (init, a
/// self-parent, an unreadable or malformed stat, or the step budget runs out), or the
/// walk moves on to the parent.
pub fn advance_lineage_walk(walk: &mut LineageWalk, stat: Option<&str>) -> (d: LineageDecision)
    requires
        old(walk).steps_left > 0,
    ensures
        (*final(walk), d) == spec_lineage_step(*old(walk), match stat {
            Some(text) => spec_stat_parent_pid(text@),
            None => None,
        }),
{
    let parent = match stat {
        Some(text) => stat_parent_pid(text),
        None => None,
    };
    match parent {
        None => LineageDecision::Unrelated,
        Some(ppid) => {
            if ppid == walk.expected_ancestor {
                LineageDecision::Descends
            } else if ppid <= 1 || ppid == walk.current {
                LineageDecision::Unrelated
            } else {
                walk.current = ppid;
                walk.steps_left = walk.steps_left - 1;
                if walk.steps_left == 0 {
                    LineageDecision::Unrelated
                } else {
                    LineageDecision::ReadStat(ppid)
                }
            }
        },
    }
}

/// The walk ends: each step that asks for another read spends one of its steps, so no
/// more than `LINEAGE_MAX_STEPS` stats are read; and a walk that asks for a read always
/// has a step left to take it.
pub proof fn lemma_lineage_walk_is_bounded(walk: LineageWalk, parent: Option<u32>)
    requires
        walk.steps_left > 0,
    ensures
        ({
            let (next, d) = spec_lineage_step(walk, parent);
            &&& next.steps_left <= walk.steps_left
            &&& d is ReadStat ==> next.steps_left == walk.steps_left - 1 && next.steps_left > 0
            &&& next.expected_ancestor == walk.expected_ancestor
        }),
{
}

/// A process whose parent is the expected ancestor descends from it, and the walk
/// never reports descent through a parent other than the expected one.
pub proof fn lemma_lineage_descends_only_through_expected(walk: LineageWalk, parent: Option<u32>)
    requires
        walk.steps_left > 0,
    ensures
        parent == Some(walk.expected_ancestor) ==> spec_lineage_step(walk, parent).1 == LineageDecision::Descends,
        spec_lineage_step(walk, parent).1 == LineageDecision::Descends ==> parent == Some(walk.expected_ancestor),
{
}

} // verus!
