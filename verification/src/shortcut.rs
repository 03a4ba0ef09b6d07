//! The shell overlay toggle shortcut: parsing `Super+<key>` settings, resolving the key
//! name to a keysym with xkbcommon, and matching key events against the bound key.
use vstd::prelude::*;
use crate::planes::{ascii_lowercase, push_char};

verus! {

/// Unicode `White_Space` characters (what `char::is_whitespace` accepts).
pub open spec fn is_unicode_whitespace(c: char) -> bool {
    ('\u{9}' <= c <= '\u{d}') || c == ' ' || c == '\u{85}' || c == '\u{a0}' || c == '\u{1680}'
        || ('\u{2000}' <= c <= '\u{200a}') || c == '\u{2028}' || c == '\u{2029}' || c == '\u{202f}'
        || c == '\u{205f}' || c == '\u{3000}'
}

pub(crate) fn char_is_whitespace(c: char) -> (r: bool)
    ensures
        r == is_unicode_whitespace(c),
{
    ('\u{9}' <= c && c <= '\u{d}') || c == ' ' || c == '\u{85}' || c == '\u{a0}' || c == '\u{1680}'
        || ('\u{2000}' <= c && c <= '\u{200a}') || c == '\u{2028}' || c == '\u{2029}' || c == '\u{202f}'
        || c == '\u{205f}' || c == '\u{3000}'
}

/// The index of the first non-whitespace character at or after `i`.
pub open spec fn leading_ws_end(s: Seq<char>, i: int) -> int
    decreases s.len() - i,
{
    if 0 <= i < s.len() && is_unicode_whitespace(s[i]) { leading_ws_end(s, i + 1) } else { i }
}

/// The end of `s` once the whitespace before `j` (down to `lo`) is dropped.
pub open spec fn trailing_ws_start(s: Seq<char>, j: int, lo: int) -> int
    decreases j - lo,
{
    if lo < j <= s.len() && is_unicode_whitespace(s[j - 1]) { trailing_ws_start(s, j - 1, lo) } else { j }
}

/// `s` without leading and trailing whitespace.
pub open spec fn trim(s: Seq<char>) -> Seq<char> {
    let lo = leading_ws_end(s, 0);
    s.subrange(lo, trailing_ws_start(s, s.len() as int, lo))
}

/// The index of the first `+` at or after `i`.
pub open spec fn plus_from(s: Seq<char>, i: int) -> Option<int>
    decreases s.len() - i,
{
    if i < 0 || i >= s.len() {
        None
    } else if s[i] == '+' {
        Some(i)
    } else {
        plus_from(s, i + 1)
    }
}

/// The text with ASCII letters lower-cased.
pub open spec fn lower_ascii(s: Seq<char>) -> Seq<char> {
    s.map_values(|c: char| ascii_lowercase(c))
}

/// What a valid setting names: the key name to look up, and the key as written.
#[derive(Debug, Clone, PartialEq, Eq)]
pub struct ShortcutKeyRequest {
    pub key_name: String,
    pub raw_key: String,
}

/// The parse of a shortcut setting: `(key_name, raw_key)`, or the error message.
pub open spec fn spec_parse_shortcut(value: Seq<char>) -> Result<(Seq<char>, Seq<char>), Seq<char>> {
    let t = trim(value);
    if t.len() == 0 {
        Err("shortcut must not be empty"@)
    } else {
        let sep = plus_from(t, 0);
        if sep is Some && plus_from(t, sep->0 + 1) is None {
            let p = sep->0;
            let modifier = trim(t.subrange(0, p));
            let key = trim(t.subrange(p + 1, t.len() as int));
            let lower = lower_ascii(modifier);
            if lower == "super"@ || lower == "logo"@ || lower == "meta"@ || lower == "win"@ {
                Ok((if key == "`"@ { "grave"@ } else { key }, key))
            } else {
                Err("shortcut modifier must be Super; got '"@ + modifier + "'"@)
            }
        } else {
            Err("shortcut must use the form Super+<keysym>; got '"@ + t + "'"@)
        }
    }
}

/// The views of a parse result.
pub open spec fn parse_view(r: Result<ShortcutKeyRequest, String>) -> Result<(Seq<char>, Seq<char>), Seq<char>> {
    match r {
        Ok(req) => Ok((req.key_name@, req.raw_key@)),
        Err(e) => Err(e@),
    }
}

pub(crate) fn chars_of(s: &str) -> (v: Vec<char>)
    ensures
        v@ == s@,
{
    let n = s.unicode_len();
    let mut v: Vec<char> = Vec::new();
    let mut i: usize = 0;
    while i < n
        invariant
            n == s@.len(),
            i <= n,
            v@ == s@.subrange(0, i as int),
        decreases n - i,
    {
        v.push(s.get_char(i));
        i = i + 1;
        assert(v@ =~= s@.subrange(0, i as int));
    }
    assert(s@.subrange(0, n as int) =~= s@);
    v
}

fn string_of(chars: &[char], lo: usize, hi: usize) -> (s: String)
    requires
        lo <= hi <= chars@.len(),
    ensures
        s@ == chars@.subrange(lo as int, hi as int),
{
    let mut s = String::new();
    let mut i = lo;
    while i < hi
        invariant
            lo <= i <= hi,
            hi <= chars@.len(),
            s@ == chars@.subrange(lo as int, i as int),
        decreases hi - i,
    {
        push_char(&mut s, chars[i]);
        i = i + 1;
        assert(s@ =~= chars@.subrange(lo as int, i as int));
    }
    s
}

/// The bounds `[lo, hi)` of `chars[from..to]` without its leading and trailing whitespace.
pub(crate) fn trim_bounds(chars: &[char], from: usize, to: usize) -> (r: (usize, usize))
    requires
        from <= to <= chars@.len(),
    ensures
        from <= r.0 <= r.1 <= to,
        chars@.subrange(r.0 as int, r.1 as int) == trim(chars@.subrange(from as int, to as int)),
{
    let ghost sub = chars@.subrange(from as int, to as int);
    let mut lo = from;
    while lo < to && char_is_whitespace(chars[lo])
        invariant
            from <= lo <= to,
            to <= chars@.len(),
            sub == chars@.subrange(from as int, to as int),
            leading_ws_end(sub, (lo - from) as int) == leading_ws_end(sub, 0),
        decreases to - lo,
    {
        lo = lo + 1;
    }
    let mut hi = to;
    while hi > lo && char_is_whitespace(chars[hi - 1])
        invariant
            from <= lo <= hi <= to,
            to <= chars@.len(),
            sub == chars@.subrange(from as int, to as int),
            leading_ws_end(sub, 0) == (lo - from) as int,
            trailing_ws_start(sub, (hi - from) as int, (lo - from) as int) == trailing_ws_start(sub, sub.len() as int, (lo - from) as int),
        decreases hi - lo,
    {
        hi = hi - 1;
    }
    assert(chars@.subrange(lo as int, hi as int) =~= sub.subrange((lo - from) as int, (hi - from) as int));
    (lo, hi)
}

/// The first `+` in `chars[from..to]`, as an index into `chars`.
fn find_plus(chars: &[char], from: usize, to: usize) -> (r: Option<usize>)
    requires
        from <= to <= chars@.len(),
    ensures
        ({
            let sub = chars@.subrange(from as int, to as int);
            match r {
                Some(p) => from <= p < to && plus_from(sub, 0) == Some((p - from) as int),
                None => plus_from(sub, 0) is None,
            }
        }),
{
    let ghost sub = chars@.subrange(from as int, to as int);
    let mut i = from;
    while i < to
        invariant
            from <= i <= to,
            to <= chars@.len(),
            sub == chars@.subrange(from as int, to as int),
            plus_from(sub, (i - from) as int) == plus_from(sub, 0),
        decreases to - i,
    {
        if chars[i] == '+' {
            return Some(i);
        }
        i = i + 1;
    }
    None
}

pub(crate) fn seq_eq_str(chars: &[char], lo: usize, hi: usize, expected: &str) -> (r: bool)
    requires
        lo <= hi <= chars@.len(),
    ensures
        r == (chars@.subrange(lo as int, hi as int) == expected@),
{
    let n = expected.unicode_len();
    if hi - lo != n {
        assert(chars@.subrange(lo as int, hi as int).len() != expected@.len());
        return false;
    }
    let mut i: usize = 0;
    while i < n
        invariant
            n == expected@.len(),
            hi - lo == n,
            hi <= chars@.len(),
            i <= n,
            forall|j: int| 0 <= j < i ==> chars@[lo + j] == expected@[j],
        decreases n - i,
    {
        if chars[lo + i] != expected.get_char(i) {
            return false;
        }
        i = i + 1;
    }
    assert(chars@.subrange(lo as int, hi as int) =~= expected@);
    true
}

fn lower_eq_str(chars: &[char], lo: usize, hi: usize, expected: &str) -> (r: bool)
    requires
        lo <= hi <= chars@.len(),
    ensures
        r == (lower_ascii(chars@.subrange(lo as int, hi as int)) == expected@),
{
    let n = expected.unicode_len();
    let ghost lowered = lower_ascii(chars@.subrange(lo as int, hi as int));
    if hi - lo != n {
        assert(lowered.len() != expected@.len());
        return false;
    }
    let mut i: usize = 0;
    while i < n
        invariant
            n == expected@.len(),
            hi - lo == n,
            hi <= chars@.len(),
            lowered == lower_ascii(chars@.subrange(lo as int, hi as int)),
            i <= n,
            forall|j: int| 0 <= j < i ==> lowered[j] == expected@[j],
        decreases n - i,
    {
        let c = chars[lo + i];
        let lower = if 'A' <= c && c <= 'Z' {
            ((c as u8) + 32) as char
        } else {
            c
        };
        assert(lowered[i as int] == lower);
        if lower != expected.get_char(i) {
            return false;
        }
        i = i + 1;
    }
    assert(lowered =~= expected@);
    true
}

/// Parses a shortcut setting of the form `Super+<key>` (modifier `Super`, `Logo`, `Meta`
/// or `Win`, any case; `` ` `` stands for the key `grave`), giving the key name to look
/// up, or the message that explains why the setting is invalid.
pub fn parse_shortcut_setting(value: &str) -> (r: Result<ShortcutKeyRequest, String>)
    ensures
        parse_view(r) == spec_parse_shortcut(value@),
{
    let chars = chars_of(value);
    let n = chars.len();
    proof {
        assert(chars@.subrange(0, n as int) =~= value@);
    }
    let (lo, hi) = trim_bounds(chars.as_slice(), 0, n);
    let ghost t = chars@.subrange(lo as int, hi as int);
    if lo == hi {
        return Err(String::from_str("shortcut must not be empty"));
    }
    let first = find_plus(chars.as_slice(), lo, hi);
    let plus = match first {
        Some(p) => {
            let again = find_plus(chars.as_slice(), p + 1, hi);
            proof {
                assert(t.subrange((p + 1 - lo) as int, t.len() as int) =~= chars@.subrange(p + 1, hi as int));
                lemma_plus_from_shift(t, (p + 1 - lo) as int);
            }
            match again {
                None => Some(p),
                Some(_) => None,
            }
        },
        None => None,
    };
    match plus {
        None => {
            let mut message = String::from_str("shortcut must use the form Super+<keysym>; got '");
            let trimmed = string_of(chars.as_slice(), lo, hi);
            message.append(trimmed.as_str());
            message.append("'");
            Err(message)
        },
        Some(p) => {
            let (mlo, mhi) = trim_bounds(chars.as_slice(), lo, p);
            let (klo, khi) = trim_bounds(chars.as_slice(), p + 1, hi);
            proof {
                assert(t.subrange(0, (p - lo) as int) =~= chars@.subrange(lo as int, p as int));
                assert(t.subrange((p + 1 - lo) as int, t.len() as int) =~= chars@.subrange(p + 1, hi as int));
            }
            let modifier_ok = lower_eq_str(chars.as_slice(), mlo, mhi, "super")
                || lower_eq_str(chars.as_slice(), mlo, mhi, "logo")
                || lower_eq_str(chars.as_slice(), mlo, mhi, "meta")
                || lower_eq_str(chars.as_slice(), mlo, mhi, "win");
            if !modifier_ok {
                let mut message = String::from_str("shortcut modifier must be Super; got '");
                let modifier = string_of(chars.as_slice(), mlo, mhi);
                message.append(modifier.as_str());
                message.append("'");
                return Err(message);
            }
            let raw_key = string_of(chars.as_slice(), klo, khi);
            let key_name = if seq_eq_str(chars.as_slice(), klo, khi, "`") {
                String::from_str("grave")
            } else {
                string_of(chars.as_slice(), klo, khi)
            };
            Ok(ShortcutKeyRequest { key_name, raw_key })
        },
    }
}

/// The keysym value xkbcommon uses for "no symbol".
pub const KEYSYM_NO_SYMBOL: u32 = 0;

/// The keysym of the grave accent key (`` ` ``).
pub const KEYSYM_GRAVE: u32 = 0x60;

/// A resolved shell overlay toggle shortcut: its display form and the bound keysym.
#[derive(Debug, Clone, PartialEq, Eq)]
pub struct ShellOverlayToggleShortcut {
    pub normalized: String,
    pub keysym: u32,
}

/// The modifier state a shortcut match reads.
#[derive(Debug, Clone, Copy, PartialEq, Eq)]
pub struct ShortcutModifiers {
    pub logo: bool,
    pub ctrl: bool,
    pub alt: bool,
}

impl Default for ShortcutModifiers {
    fn default() -> (m: Self)
        ensures
            !m.logo && !m.ctrl && !m.alt,
    {
        ShortcutModifiers { logo: false, ctrl: false, alt: false }
    }
}

/// The keysym a key name resolves to: the exact (case-sensitive) lookup when it found
/// a symbol, else the case-insensitive one.
pub open spec fn spec_pick_keysym(exact: u32, case_insensitive: u32) -> u32 {
    if exact != KEYSYM_NO_SYMBOL { exact } else { case_insensitive }
}

/// Picks between the exact and the case-insensitive keysym lookups of a key name.
pub fn pick_keysym(exact: u32, case_insensitive: u32) -> (r: u32)
    ensures
        r == spec_pick_keysym(exact, case_insensitive),
{
    if exact != KEYSYM_NO_SYMBOL { exact } else { case_insensitive }
}

/// The shortcut that a parsed setting resolves to, given the keysym its key name looked
/// up to and that keysym's name: `(normalized, keysym)`, or the error message.
pub open spec fn spec_resolve_shortcut(raw_key: Seq<char>, keysym: u32, keysym_name: Seq<char>)
    -> Result<(Seq<char>, u32), Seq<char>>
{
    if keysym == KEYSYM_NO_SYMBOL {
        Err("unknown shell overlay shortcut key '"@ + raw_key + "'"@)
    } else if keysym == KEYSYM_GRAVE {
        Ok(("Super+`"@, keysym))
    } else {
        Ok(("Super+"@ + keysym_name, keysym))
    }
}

/// The views of a resolved shortcut result.
pub open spec fn resolve_view(r: Result<ShellOverlayToggleShortcut, String>) -> Result<(Seq<char>, u32), Seq<char>> {
    match r {
        Ok(s) => Ok((s.normalized@, s.keysym)),
        Err(e) => Err(e@),
    }
}

/// Resolves a parsed setting to a shortcut: `keysym` is what the key name looked up to
/// (see `pick_keysym`), `keysym_name` is the name xkbcommon gives that keysym. The
/// grave key displays as `` Super+` ``; an unknown key is an error naming the key as
/// written.
pub fn resolve_shell_overlay_toggle_shortcut(request: &ShortcutKeyRequest, keysym: u32, keysym_name: &str)
    -> (r: Result<ShellOverlayToggleShortcut, String>)
    ensures
        resolve_view(r) == spec_resolve_shortcut(request.raw_key@, keysym, keysym_name@),
{
    if keysym == KEYSYM_NO_SYMBOL {
        let mut message = String::from_str("unknown shell overlay shortcut key '");
        message.append(request.raw_key.as_str());
        message.append("'");
        return Err(message);
    }
    let mut normalized = String::from_str("Super+");
    if keysym == KEYSYM_GRAVE {
        normalized.append("`");
        proof {
            reveal_strlit("Super+");
            reveal_strlit("`");
            reveal_strlit("Super+`");
            assert(normalized@ =~= "Super+`"@);
        }
    } else {
        normalized.append(keysym_name);
    }
    Ok(ShellOverlayToggleShortcut { normalized, keysym })
}

/// Whether `r` is the shortcut resolved from the exact and case-insensitive lookups of
/// a key name and the name of the keysym chosen from them.
pub open spec fn resolves_from_lookups(
    r: Result<(Seq<char>, u32), Seq<char>>,
    raw_key: Seq<char>,
    exact: u32,
    folded: u32,
    name: Seq<char>,
) -> bool {
    r == spec_resolve_shortcut(raw_key, spec_pick_keysym(exact, folded), name)
}

/// The flags of a keysym lookup by name: an exact lookup, and one that ignores case
/// (xkbcommon's `KEYSYM_NO_FLAGS` and `KEYSYM_CASE_INSENSITIVE`).
pub const KEYSYM_NO_FLAGS: u32 = 0;

pub const KEYSYM_CASE_INSENSITIVE: u32 = 1;

/// Whether `exact` and `folded` are what `keysym_from_name` gave for the key name `key`
/// (looked up exactly, then ignoring case), and `name` what `keysym_get_name` gave for
/// the keysym chosen from them.
pub open spec fn looked_up<L: Fn(&str, u32) -> u32, N: Fn(u32) -> String>(
    keysym_from_name: L,
    keysym_get_name: N,
    key: &str,
    exact: u32,
    folded: u32,
    name: String,
) -> bool {
    &&& call_ensures(keysym_from_name, (key, KEYSYM_NO_FLAGS), exact)
    &&& call_ensures(keysym_from_name, (key, KEYSYM_CASE_INSENSITIVE), folded)
    &&& call_ensures(keysym_get_name, (spec_pick_keysym(exact, folded),), name)
}

/// What parsing the setting `value` gives with the lookup functions `keysym_from_name`
/// and `keysym_get_name`: a setting that does not parse gives its parse error; one that
/// does gives the resolution (`spec_resolve_shortcut`) of what the lookups returned
/// for its key name.
pub open spec fn shortcut_outcome<L: Fn(&str, u32) -> u32, N: Fn(u32) -> String>(
    keysym_from_name: L,
    keysym_get_name: N,
    value: Seq<char>,
    r: Result<(Seq<char>, u32), Seq<char>>,
) -> bool {
    match spec_parse_shortcut(value) {
        Err(e) => r == Err::<(Seq<char>, u32), Seq<char>>(e),
        Ok((key_name, raw_key)) => exists|key: &str, exact: u32, folded: u32, name: String|
            #[trigger] looked_up(keysym_from_name, keysym_get_name, key, exact, folded, name)
            && key@ == key_name
            && resolves_from_lookups(r, raw_key, exact, folded, name@),
    }
}

/// Parses a shell overlay shortcut setting and resolves its key: the key name is looked
/// up with `keysym_from_name` exactly first and then ignoring case, and the chosen
/// keysym is named with `keysym_get_name` (xkbcommon's functions of those names). A
/// setting that does not parse gives its parse error; one that does gives the
/// resolution (`spec_resolve_shortcut`) of what the lookups returned.
pub fn parse_shell_overlay_toggle_shortcut<L: Fn(&str, u32) -> u32, N: Fn(u32) -> String>(
    value: &str,
    keysym_from_name: L,
    keysym_get_name: N,
) -> (r: Result<ShellOverlayToggleShortcut, String>)
    requires
        spec_parse_shortcut(value@) matches Ok((key_name, _)) ==> !key_name.contains('\0'),
        forall|key: &str, flags: u32| !key@.contains('\0') ==> call_requires(keysym_from_name, (key, flags)),
        forall|keysym: u32| call_requires(keysym_get_name, (keysym,)),
    ensures
        shortcut_outcome(keysym_from_name, keysym_get_name, value@, resolve_view(r)),
{
    let request = match parse_shortcut_setting(value) {
        Ok(request) => request,
        Err(e) => {
            return Err(e);
        },
    };
    let key = request.key_name.as_str();
    let exact = keysym_from_name(key, KEYSYM_NO_FLAGS);
    let folded = keysym_from_name(key, KEYSYM_CASE_INSENSITIVE);
    let keysym = pick_keysym(exact, folded);
    let name = keysym_get_name(keysym);
    let r = resolve_shell_overlay_toggle_shortcut(&request, keysym, name.as_str());
    proof {
        let raw_key = request.raw_key@;
        assert(spec_parse_shortcut(value@) == Ok::<(Seq<char>, Seq<char>), Seq<char>>((request.key_name@, raw_key)));
        assert(looked_up(keysym_from_name, keysym_get_name, key, exact, folded, name));
        assert(resolves_from_lookups(resolve_view(r), raw_key, exact, folded, name@));
    }
    r
}

/// Whether the lookup functions answer alike for key names that read alike and for
/// equal keysyms (as xkbcommon's functions do).
pub open spec fn lookups_deterministic<L: Fn(&str, u32) -> u32, N: Fn(u32) -> String>(
    keysym_from_name: L,
    keysym_get_name: N,
) -> bool {
    &&& forall|a: &str, b: &str, flags: u32, x: u32, y: u32|
        a@ == b@ && #[trigger] call_ensures(keysym_from_name, (a, flags), x)
            && #[trigger] call_ensures(keysym_from_name, (b, flags), y) ==> x == y
    &&& forall|k: u32, x: String, y: String|
        #[trigger] call_ensures(keysym_get_name, (k,), x) && #[trigger] call_ensures(keysym_get_name, (k,), y)
            ==> x@ == y@
}

/// Settings that parse to the same key name give the same shortcut: when the lookups
/// answer alike for the same name, and one of the settings resolves to a shortcut, the
/// other resolves to that shortcut too. With `lemma_setting_spellings_parse_alike`,
/// `super+grave`, `` Super+` `` and ` WIN + grave ` give one shortcut.
pub proof fn lemma_same_key_name_gives_same_shortcut<L: Fn(&str, u32) -> u32, N: Fn(u32) -> String>(
    keysym_from_name: L,
    keysym_get_name: N,
    first: Seq<char>,
    second: Seq<char>,
    first_result: Result<(Seq<char>, u32), Seq<char>>,
    second_result: Result<(Seq<char>, u32), Seq<char>>,
)
    requires
        lookups_deterministic(keysym_from_name, keysym_get_name),
        spec_parse_shortcut(first) is Ok,
        spec_parse_shortcut(second) is Ok,
        spec_parse_shortcut(first)->Ok_0.0 == spec_parse_shortcut(second)->Ok_0.0,
        shortcut_outcome(keysym_from_name, keysym_get_name, first, first_result),
        shortcut_outcome(keysym_from_name, keysym_get_name, second, second_result),
        first_result is Ok,
    ensures
        second_result == first_result,
{
    let (key_name, raw1) = spec_parse_shortcut(first)->Ok_0;
    let raw2 = spec_parse_shortcut(second)->Ok_0.1;
    let (k1, e1, f1, n1) = choose|key: &str, exact: u32, folded: u32, name: String|
        #[trigger] looked_up(keysym_from_name, keysym_get_name, key, exact, folded, name)
        && key@ == key_name
        && resolves_from_lookups(first_result, raw1, exact, folded, name@);
    let (k2, e2, f2, n2) = choose|key: &str, exact: u32, folded: u32, name: String|
        #[trigger] looked_up(keysym_from_name, keysym_get_name, key, exact, folded, name)
        && key@ == key_name
        && resolves_from_lookups(second_result, raw2, exact, folded, name@);
    assert(call_ensures(keysym_from_name, (k1, KEYSYM_NO_FLAGS), e1));
    assert(call_ensures(keysym_from_name, (k2, KEYSYM_NO_FLAGS), e2));
    assert(e1 == e2);
    assert(call_ensures(keysym_from_name, (k1, KEYSYM_CASE_INSENSITIVE), f1));
    assert(call_ensures(keysym_from_name, (k2, KEYSYM_CASE_INSENSITIVE), f2));
    assert(f1 == f2);
    let k = spec_pick_keysym(e1, f1);
    assert(call_ensures(keysym_get_name, (k,), n1));
    assert(call_ensures(keysym_get_name, (k,), n2));
    assert(n1@ == n2@);
}

/// Every character of `s` is whitespace.
pub open spec fn all_whitespace(s: Seq<char>) -> bool {
    forall|i: int| 0 <= i < s.len() ==> is_unicode_whitespace(#[trigger] s[i])
}

/// `s` is non-empty, holds no `+`, and neither starts nor ends with whitespace.
pub open spec fn is_setting_word(s: Seq<char>) -> bool {
    &&& s.len() > 0
    &&& !is_unicode_whitespace(s[0])
    &&& !is_unicode_whitespace(s[s.len() - 1])
    &&& forall|i: int| 0 <= i < s.len() ==> #[trigger] s[i] != '+'
}

/// The modifier names that stand for Super, compared after ASCII lower-casing.
pub open spec fn is_super_alias(modifier: Seq<char>) -> bool {
    let lower = lower_ascii(modifier);
    lower == "super"@ || lower == "logo"@ || lower == "meta"@ || lower == "win"@
}

proof fn lemma_leading_ws_end_at(s: Seq<char>, i: int, e: int)
    requires
        0 <= i <= e < s.len(),
        forall|j: int| i <= j < e ==> is_unicode_whitespace(#[trigger] s[j]),
        !is_unicode_whitespace(s[e]),
    ensures
        leading_ws_end(s, i) == e,
    decreases e - i,
{
    if i < e {
        lemma_leading_ws_end_at(s, i + 1, e);
    }
}

proof fn lemma_trailing_ws_start_at(s: Seq<char>, lo: int, e: int, j: int)
    requires
        lo < e <= j <= s.len(),
        forall|x: int| e <= x < j ==> is_unicode_whitespace(#[trigger] s[x]),
        !is_unicode_whitespace(s[e - 1]),
    ensures
        trailing_ws_start(s, j, lo) == e,
    decreases j - e,
{
    if e < j {
        lemma_trailing_ws_start_at(s, lo, e, j - 1);
    }
}

/// Surrounding whitespace is trimmed off a core that neither starts nor ends with it.
proof fn lemma_trim_around(pre: Seq<char>, core: Seq<char>, post: Seq<char>)
    requires
        all_whitespace(pre),
        all_whitespace(post),
        core.len() > 0,
        !is_unicode_whitespace(core[0]),
        !is_unicode_whitespace(core[core.len() - 1]),
    ensures
        trim(pre + core + post) == core,
{
    let s = pre + core + post;
    let lo = pre.len() as int;
    let e = lo + core.len();
    assert forall|j: int| 0 <= j < lo implies is_unicode_whitespace(#[trigger] s[j]) by {
        assert(s[j] == pre[j]);
    }
    assert(s[lo] == core[0]);
    lemma_leading_ws_end_at(s, 0, lo);
    assert forall|x: int| e <= x < s.len() implies is_unicode_whitespace(#[trigger] s[x]) by {
        assert(s[x] == post[x - e]);
    }
    assert(s[e - 1] == core[core.len() - 1]);
    lemma_trailing_ws_start_at(s, lo, e, s.len() as int);
    assert(s.subrange(lo, e) =~= core);
}

proof fn lemma_plus_at(s: Seq<char>, i: int, p: int)
    requires
        0 <= i <= p < s.len(),
        s[p] == '+',
        forall|x: int| i <= x < p ==> #[trigger] s[x] != '+',
    ensures
        plus_from(s, i) == Some(p),
    decreases p - i,
{
    if i < p {
        lemma_plus_at(s, i + 1, p);
    }
}

proof fn lemma_no_plus(s: Seq<char>, i: int)
    requires
        0 <= i <= s.len(),
        forall|x: int| i <= x < s.len() ==> #[trigger] s[x] != '+',
    ensures
        plus_from(s, i) is None,
    decreases s.len() - i,
{
    if i < s.len() {
        lemma_no_plus(s, i + 1);
    }
}

/// How a setting is spelled does not change what it parses to: a Super alias in any
/// case, then `+` and a key, with any whitespace around the modifier, the `+` and the
/// key, parses to the key (with `` ` `` standing for `grave`), the same for every
/// alias, case and spacing.
pub proof fn lemma_setting_spellings_parse_alike(
    pre: Seq<char>,
    modifier: Seq<char>,
    before_plus: Seq<char>,
    after_plus: Seq<char>,
    key: Seq<char>,
    post: Seq<char>,
)
    requires
        all_whitespace(pre),
        all_whitespace(before_plus),
        all_whitespace(after_plus),
        all_whitespace(post),
        is_setting_word(modifier),
        is_super_alias(modifier),
        is_setting_word(key),
    ensures
        spec_parse_shortcut(pre + modifier + before_plus + "+"@ + after_plus + key + post)
            == Ok::<(Seq<char>, Seq<char>), Seq<char>>((if key == "`"@ { "grave"@ } else { key }, key)),
{
    reveal_strlit("+");
    let core = modifier + before_plus + "+"@ + after_plus + key;
    let value = pre + modifier + before_plus + "+"@ + after_plus + key + post;
    assert(value =~= pre + core + post);
    assert(core[0] == modifier[0]);
    assert(core[core.len() - 1] == key[key.len() - 1]);
    lemma_trim_around(pre, core, post);
    let t = trim(value);
    assert(t == core);
    let p: int = (modifier.len() + before_plus.len()) as int;
    assert(core[p] == '+');
    assert forall|x: int| 0 <= x < p implies #[trigger] core[x] != '+' by {
        if x < modifier.len() {
            assert(core[x] == modifier[x]);
        } else {
            assert(core[x] == before_plus[x - modifier.len()]);
            assert(is_unicode_whitespace(before_plus[x - modifier.len()]));
        }
    }
    lemma_plus_at(core, 0, p);
    assert forall|x: int| p + 1 <= x < core.len() implies #[trigger] core[x] != '+' by {
        if x < p + 1 + after_plus.len() {
            assert(core[x] == after_plus[x - p - 1]);
            assert(is_unicode_whitespace(after_plus[x - p - 1]));
        } else {
            assert(core[x] == key[x - p - 1 - after_plus.len()]);
        }
    }
    lemma_no_plus(core, p + 1);
    assert(core.subrange(0, p) =~= Seq::<char>::empty() + modifier + before_plus);
    lemma_trim_around(Seq::<char>::empty(), modifier, before_plus);
    assert(core.subrange(p + 1, core.len() as int) =~= after_plus + key + Seq::<char>::empty());
    assert(all_whitespace(Seq::<char>::empty()));
    lemma_trim_around(after_plus, key, Seq::<char>::empty());
}

/// Two settings that parse to the same key name resolve to the same shortcut once that
/// name has looked up to a known keysym: the key as written only shows in the error
/// for an unknown key. With `lemma_setting_spellings_parse_alike`, `super+grave`,
/// `` Super+` `` and ` WIN + grave ` give one shortcut.
pub proof fn lemma_same_key_name_resolves_alike(
    first: Seq<char>,
    second: Seq<char>,
    keysym: u32,
    keysym_name: Seq<char>,
)
    requires
        spec_parse_shortcut(first) is Ok,
        spec_parse_shortcut(second) is Ok,
        spec_parse_shortcut(first)->Ok_0.0 == spec_parse_shortcut(second)->Ok_0.0,
        keysym != KEYSYM_NO_SYMBOL,
    ensures
        spec_resolve_shortcut(spec_parse_shortcut(first)->Ok_0.1, keysym, keysym_name)
            == spec_resolve_shortcut(spec_parse_shortcut(second)->Ok_0.1, keysym, keysym_name),
        spec_resolve_shortcut(spec_parse_shortcut(first)->Ok_0.1, keysym, keysym_name) is Ok,
{
}

impl ShellOverlayToggleShortcut {
    /// The shortcut as shown to the user, such as `` Super+` ``.
    pub fn display_string(&self) -> (r: String)
        ensures
            r@ == self.normalized@,
    {
        self.normalized.clone()
    }

    /// A key event matches when Super is held without Ctrl or Alt and one of the raw
    /// (unmodified) keysyms of the key is the bound one.
    pub fn matches(&self, modifiers: &ShortcutModifiers, raw_syms: &[u32]) -> (r: bool)
        ensures
            r == (modifiers.logo && !modifiers.ctrl && !modifiers.alt
                && exists|i: int| 0 <= i < raw_syms@.len() && raw_syms@[i] == self.keysym),
    {
        if !modifiers.logo || modifiers.ctrl || modifiers.alt {
            return false;
        }
        let mut i: usize = 0;
        while i < raw_syms.len()
            invariant
                modifiers.logo && !modifiers.ctrl && !modifiers.alt,
                i <= raw_syms@.len(),
                forall|j: int| 0 <= j < i ==> raw_syms@[j] != self.keysym,
            decreases raw_syms@.len() - i,
        {
            if raw_syms[i] == self.keysym {
                assert(raw_syms@[i as int] == self.keysym);
                return true;
            }
            i = i + 1;
        }
        false
    }
}

proof fn lemma_plus_from_shift(s: Seq<char>, k: int)
    requires
        0 <= k <= s.len(),
    ensures
        plus_from(s, k) == (match plus_from(s.subrange(k, s.len() as int), 0) {
            Some(i) => Some(i + k),
            None => None,
        }),
    decreases s.len() - k,
{
    let sub = s.subrange(k, s.len() as int);
    if k < s.len() {
        if s[k] != '+' {
            lemma_plus_from_shift(s, k + 1);
            lemma_plus_from_offset(sub, 1);
            assert(sub.subrange(1, sub.len() as int) =~= s.subrange(k + 1, s.len() as int));
        }
    }
}

proof fn lemma_plus_from_offset(s: Seq<char>, k: int)
    requires
        0 <= k <= s.len(),
    ensures
        plus_from(s, k) == (match plus_from(s.subrange(k, s.len() as int), 0) {
            Some(i) => Some(i + k),
            None => None,
        }),
    decreases s.len() - k,
{
    let sub = s.subrange(k, s.len() as int);
    if k < s.len() && s[k] != '+' {
        lemma_plus_from_offset(s, k + 1);
        assert(sub.subrange(1, sub.len() as int) =~= s.subrange(k + 1, s.len() as int));
        lemma_plus_from_offset(sub, 1);
    }
}

} // verus!
