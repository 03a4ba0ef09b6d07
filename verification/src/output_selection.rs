//! Choosing the primary DRM device, ordering connectors and picking the encoder and CRTC
//! of an output claim, and describing output selection for the runtime status. Device
//! paths are compared the way `std::path::Path` compares them (component-wise).
use vstd::prelude::*;

verus! {

/// Whether `std::path::Path` considers the two paths equal.
pub uninterp spec fn path_same(a: Seq<char>, b: Seq<char>) -> bool;

/// Whether `std::path::Path` orders `a` strictly before `b`.
pub uninterp spec fn path_precedes(a: Seq<char>, b: Seq<char>) -> bool;

/// `Path::new(a) == Path::new(b)`: component-wise path equality from std. Claimed: the
/// answer is a function of the two path strings alone, and, as std's `Eq` for `Path`
/// promises, a path equals itself and equality is symmetric.
#[verifier::external_body]
fn paths_equal(a: &str, b: &str) -> (r: bool)
    ensures
        r == path_same(a@, b@),
        r == path_same(b@, a@),
        a@ == b@ ==> r,
{
    std::path::Path::new(a) == std::path::Path::new(b)
}

/// `Path::new(a) < Path::new(b)`: std's component-wise path order. Claimed: the answer
/// is a function of the two path strings alone, and, as std's `Ord` for `Path` promises,
/// the order is total and agrees with path equality: no path precedes one equal to it,
/// and of two unequal paths one precedes the other.
#[verifier::external_body]
fn path_less(a: &str, b: &str) -> (r: bool)
    ensures
        r == path_precedes(a@, b@),
        path_same(a@, b@) ==> !r,
        a@ == b@ ==> !r,
        !r ==> (path_same(a@, b@) || path_precedes(b@, a@)),
{
    std::path::Path::new(a) < std::path::Path::new(b)
}

/// The least of the first `n` paths in path order, the earliest one among equals.
pub open spec fn least_path(paths: Seq<Seq<char>>, n: nat) -> Seq<char>
    decreases n,
{
    if n <= 1 {
        paths[0]
    } else {
        let best = least_path(paths, (n - 1) as nat);
        if path_precedes(paths[n - 1], best) { paths[n - 1] } else { best }
    }
}

/// The views of a list of path strings.
pub open spec fn path_views(paths: Seq<String>) -> Seq<Seq<char>> {
    paths.map_values(|p: String| p@)
}

/// The index of the first path equal (as a path) to `preferred`, if any.
pub open spec fn first_matching_path(paths: Seq<Seq<char>>, preferred: Seq<char>) -> Option<int>
    decreases paths.len(),
{
    if paths.len() == 0 {
        None
    } else if path_same(paths[0], preferred) {
        Some(0)
    } else {
        match first_matching_path(paths.drop_first(), preferred) {
            Some(i) => Some(i + 1),
            None => None,
        }
    }
}

/// The primary device: the configured path when the list holds it (as the list spells
/// it), else the least path in path order; none for an empty list.
pub open spec fn spec_select_primary_path(paths: Seq<Seq<char>>, preferred: Option<Seq<char>>) -> Option<Seq<char>> {
    if paths.len() == 0 {
        None
    } else {
        match preferred {
            Some(p) => match first_matching_path(paths, p) {
                Some(i) => Some(paths[i]),
                None => Some(least_path(paths, paths.len())),
            },
            None => Some(least_path(paths, paths.len())),
        }
    }
}

proof fn lemma_first_matching_step(paths: Seq<Seq<char>>, preferred: Seq<char>, i: int)
    requires
        0 <= i < paths.len(),
        !path_same(paths[i], preferred),
        first_matching_path(paths, preferred) == (match first_matching_path(paths.skip(i), preferred) {
            Some(j) => Some(j + i),
            None => None,
        }),
    ensures
        first_matching_path(paths, preferred) == (match first_matching_path(paths.skip(i + 1), preferred) {
            Some(j) => Some(j + i + 1),
            None => None,
        }),
{
    assert(paths.skip(i).drop_first() =~= paths.skip(i + 1));
}

/// Picks the primary DRM device among `paths`, preferring `preferred_primary_path`.
pub fn select_primary_path(paths: &[String], preferred_primary_path: Option<&str>) -> (r: Option<String>)
    ensures
        (match r {
            Some(s) => Some(s@),
            None => None,
        }) == spec_select_primary_path(
            path_views(paths@),
            match preferred_primary_path {
                Some(p) => Some(p@),
                None => None,
            },
        ),
        (preferred_primary_path is Some && exists|j: int|
            0 <= j < paths@.len() && #[trigger] paths@[j]@ == preferred_primary_path->Some_0@)
            ==> (r is Some && path_same(r->Some_0@, preferred_primary_path->Some_0@)),
{
    let ghost views = path_views(paths@);
    let n = paths.len();
    if n == 0 {
        return None;
    }
    if let Some(preferred) = preferred_primary_path {
        let mut i: usize = 0;
        proof {
            assert(views.skip(0) =~= views);
        }
        while i < n
            invariant
                n == paths@.len(),
                views == path_views(paths@),
                preferred_primary_path == Some(preferred),
                i <= n,
                first_matching_path(views, preferred@) == (match first_matching_path(views.skip(i as int), preferred@) {
                    Some(j) => Some(j + i),
                    None => None,
                }),
                forall|k: int| 0 <= k < i ==> paths@[k]@ != preferred@,
            decreases n - i,
        {
            if paths_equal(paths[i].as_str(), preferred) {
                assert(views[i as int] == paths@[i as int]@);
                assert(views.skip(i as int)[0] == views[i as int]);
                assert(first_matching_path(views.skip(i as int), preferred@) == Some(0int));
                let chosen = paths[i].clone();
                assert(first_matching_path(views, preferred@) == Some(i as int));
                assert(chosen@ == views[i as int]);
                assert(spec_select_primary_path(views, Some(preferred@)) == Some(chosen@));
                assert(path_same(chosen@, preferred@));
                return Some(chosen);
            }
            proof {
                lemma_first_matching_step(views, preferred@, i as int);
            }
            i = i + 1;
        }
        assert(views.skip(n as int).len() == 0);
    }
    let mut best: usize = 0;
    let mut k: usize = 1;
    while k < n
        invariant
            n == paths@.len(),
            views == path_views(paths@),
            1 <= k <= n,
            best < n,
            views[best as int] == least_path(views, k as nat),
        decreases n - k,
    {
        assert(views[k as int] == paths@[k as int]@);
        assert(views[best as int] == paths@[best as int]@);
        if path_less(paths[k].as_str(), paths[best].as_str()) {
            best = k;
        }
        k = k + 1;
    }
    let chosen = paths[best].clone();
    assert(chosen@ == views[best as int]);
    Some(chosen)
}

/// The sort key of a device: the preferred device first, then by path text.
pub fn host_device_sort_key(path: &str, preferred_primary_path: Option<&str>) -> (r: (u8, String))
    ensures
        r.0 == (if preferred_primary_path matches Some(p) && path_same(p@, path@) { 0u8 } else { 1u8 }),
        r.1@ == path@,
{
    let rank: u8 = match preferred_primary_path {
        Some(preferred) => if paths_equal(preferred, path) {
            0
        } else {
            1
        },
        None => 1,
    };
    (rank, String::from_str(path))
}


/// The DRM device and connector an output was claimed through.
#[derive(Debug)]
pub struct OutputIdentity {
    pub device_path: String,
    pub connector_name: String,
    pub connector_id: u32,
}

/// `device_path:connector_name` of an output, as the selection descriptions write it.
pub open spec fn identity_text(identity: OutputIdentity) -> Seq<char> {
    identity.device_path@ + ":"@ + identity.connector_name@
}

/// The description of an output selection attempt: startup or recovery, the forced or
/// automatic device and output, and the output that was active before, if any.
pub open spec fn spec_describe_output_selection_attempt(
    forced_drm_path: Option<Seq<char>>,
    forced_output_name: Option<Seq<char>>,
    previous_identity: Option<OutputIdentity>,
    recovering: bool,
) -> Seq<char> {
    (if recovering { "recovery output selection"@ } else { "startup output selection"@ }) + " "@
        + (match forced_drm_path {
        Some(path) => "device=forced:"@ + path,
        None => "device=automatic"@,
    }) + " "@ + (match forced_output_name {
        Some(name) => "output=forced:"@ + name,
        None => "output=automatic"@,
    }) + (match previous_identity {
        Some(previous) => " previous="@ + identity_text(previous),
        None => Seq::empty(),
    })
}

/// The text of an optional string.
pub open spec fn opt_text(s: Option<&str>) -> Option<Seq<char>> {
    match s {
        Some(t) => Some(t@),
        None => None,
    }
}

/// Describes an output selection attempt for the runtime status.
pub fn describe_output_selection_attempt(
    forced_drm_path: Option<&str>,
    forced_output_name: Option<&str>,
    previous_identity: Option<&OutputIdentity>,
    recovering: bool,
) -> (r: String)
    ensures
        r@ == spec_describe_output_selection_attempt(
            opt_text(forced_drm_path),
            opt_text(forced_output_name),
            match previous_identity {
                Some(p) => Some(*p),
                None => None,
            },
            recovering,
        ),
{
    let mut text = if recovering {
        String::from_str("recovery output selection")
    } else {
        String::from_str("startup output selection")
    };
    let ghost head = text@;
    text.append(" ");
    let ghost t1 = text@;
    match forced_drm_path {
        Some(path) => {
            text.append("device=forced:");
            text.append(path);
        },
        None => text.append("device=automatic"),
    }
    let ghost t2 = text@;
    text.append(" ");
    let ghost t3 = text@;
    match forced_output_name {
        Some(name) => {
            text.append("output=forced:");
            text.append(name);
        },
        None => text.append("output=automatic"),
    }
    let ghost t4 = text@;
    match previous_identity {
        Some(previous) => {
            text.append(" previous=");
            text.append(previous.device_path.as_str());
            text.append(":");
            text.append(previous.connector_name.as_str());
        },
        None => {},
    }
    assert(text@ =~= spec_describe_output_selection_attempt(
        opt_text(forced_drm_path),
        opt_text(forced_output_name),
        match previous_identity {
            Some(p) => Some(*p),
            None => None,
        },
        recovering,
    ));
    text
}

/// The description of a completed output selection: a rebind when recovery moved to
/// another output, else whether the selection was forced or automatic, with the
/// selected device and output.
pub open spec fn spec_describe_output_selection_result(
    recovering: bool,
    previous_identity: Option<OutputIdentity>,
    selected_identity: OutputIdentity,
    forced_drm_path: Option<Seq<char>>,
    forced_output_name: Option<Seq<char>>,
) -> Seq<char> {
    if recovering && previous_identity is Some && (!path_same(
        previous_identity.unwrap().device_path@,
        selected_identity.device_path@,
    ) || previous_identity.unwrap().connector_name@ != selected_identity.connector_name@) {
        "active connector "@ + previous_identity.unwrap().connector_name@ + " disappeared, rebound to "@
            + selected_identity.connector_name@ + " using matching single-output policy"@
    } else {
        (if forced_drm_path is Some || forced_output_name is Some { "forced"@ } else { "auto-selected"@ })
            + " device="@ + selected_identity.device_path@ + " output="@ + selected_identity.connector_name@
    }
}

/// Describes the outcome of an output selection for the runtime status.
pub fn describe_output_selection_result(
    recovering: bool,
    previous_identity: Option<&OutputIdentity>,
    selected_identity: &OutputIdentity,
    forced_drm_path: Option<&str>,
    forced_output_name: Option<&str>,
) -> (r: String)
    ensures
        r@ == spec_describe_output_selection_result(
            recovering,
            match previous_identity {
                Some(p) => Some(*p),
                None => None,
            },
            *selected_identity,
            opt_text(forced_drm_path),
            opt_text(forced_output_name),
        ),
{
    if recovering {
        if let Some(previous) = previous_identity {
            let same_device = paths_equal(previous.device_path.as_str(), selected_identity.device_path.as_str());
            let same_connector = previous.connector_name == selected_identity.connector_name;
            if !same_device || !same_connector {
                let mut text = String::from_str("active connector ");
                text.append(previous.connector_name.as_str());
                text.append(" disappeared, rebound to ");
                text.append(selected_identity.connector_name.as_str());
                text.append(" using matching single-output policy");
                assert(text@ =~= spec_describe_output_selection_result(
                    recovering,
                    Some(*previous),
                    *selected_identity,
                    opt_text(forced_drm_path),
                    opt_text(forced_output_name),
                ));
                return text;
            }
        }
    }
    let mut text = if forced_drm_path.is_some() || forced_output_name.is_some() {
        String::from_str("forced")
    } else {
        String::from_str("auto-selected")
    };
    text.append(" device=");
    text.append(selected_identity.device_path.as_str());
    text.append(" output=");
    text.append(selected_identity.connector_name.as_str());
    assert(text@ =~= spec_describe_output_selection_result(
        recovering,
        match previous_identity {
            Some(p) => Some(*p),
            None => None,
        },
        *selected_identity,
        opt_text(forced_drm_path),
        opt_text(forced_output_name),
    ));
    text
}


/// Strictly increasing.
pub open spec fn strictly_increasing(s: Seq<u32>) -> bool {
    forall|i: int, j: int| 0 <= i < j < s.len() ==> s[i] < s[j]
}

/// The order in which a connector's encoders are tried: its current encoder first,
/// then every other encoder it can use, each once, by ascending handle.
pub open spec fn encoder_order_ok(current: Option<u32>, encoders: Seq<u32>, r: Seq<u32>) -> bool {
    let tail = if current is Some { r.drop_first() } else { r };
    &&& current matches Some(c) ==> r.len() > 0 && r[0] == c
    &&& strictly_increasing(tail)
    &&& forall|x: u32| tail.contains(x) <==> (encoders.contains(x) && current != Some(x))
}

/// The least `e` of `encoders` with `e != skip` and, when `above` is some, `e > above`.
fn least_encoder_above(encoders: &[u32], skip: Option<u32>, above: Option<u32>) -> (r: Option<u32>)
    ensures
        r matches Some(m) ==> encoders@.contains(m) && skip != Some(m)
            && (above matches Some(a) ==> m > a)
            && (forall|k: int| 0 <= k < encoders@.len() && skip != Some(encoders@[k])
                && (above matches Some(a) ==> encoders@[k] > a) ==> m <= encoders@[k]),
        r is None ==> (forall|k: int| 0 <= k < encoders@.len() && skip != Some(encoders@[k])
            ==> (above matches Some(a) && encoders@[k] <= a)),
{
    let mut best: Option<u32> = None;
    let mut i: usize = 0;
    while i < encoders.len()
        invariant
            i <= encoders@.len(),
            best matches Some(m) ==> encoders@.contains(m) && skip != Some(m) && (above matches Some(a) ==> m > a),
            forall|k: int| 0 <= k < i && skip != Some(encoders@[k]) && (above matches Some(a) ==> encoders@[k] > a)
                ==> (best matches Some(m) && m <= encoders@[k]),
        decreases encoders@.len() - i,
    {
        let e = encoders[i];
        let eligible = match skip {
            Some(s) => s != e,
            None => true,
        } && match above {
            Some(a) => e > a,
            None => true,
        };
        if eligible {
            let better = match best {
                Some(m) => e < m,
                None => true,
            };
            if better {
                best = Some(e);
                assert(encoders@[i as int] == e);
            }
        }
        i = i + 1;
    }
    best
}

/// The encoders of a connector in the order they are tried: the current encoder (if
/// any) first, then the others by ascending handle, without repeats.
pub fn encoder_candidates(current: Option<u32>, encoders: &[u32]) -> (r: Vec<u32>)
    ensures
        encoder_order_ok(current, encoders@, r@),
{
    let mut out: Vec<u32> = Vec::new();
    if let Some(c) = current {
        out.push(c);
    }
    let ghost head: int = if current is Some { 1 } else { 0 };
    let mut last: Option<u32> = None;
    loop
        invariant
            out@.len() >= head,
            head == (if current is Some { 1int } else { 0 }),
            current matches Some(c) ==> out@[0] == c,
            strictly_increasing(out@.subrange(head, out@.len() as int)),
            last is None <==> out@.len() == head,
            last matches Some(l) ==> out@.len() > head && out@[out@.len() - 1] == l,
            forall|x: u32| out@.subrange(head, out@.len() as int).contains(x)
                ==> encoders@.contains(x) && current != Some(x),
            forall|k: int| 0 <= k < encoders@.len() && current != Some(encoders@[k])
                && (last matches Some(l) && encoders@[k] <= l)
                ==> out@.subrange(head, out@.len() as int).contains(encoders@[k]),
        ensures
            forall|k: int| 0 <= k < encoders@.len() && current != Some(encoders@[k])
                ==> out@.subrange(head, out@.len() as int).contains(encoders@[k]),
        decreases (match last { Some(l) => 0xffff_ffffint - l, None => 0x1_0000_0000int }),
    {
        let next = least_encoder_above(encoders, current, last);
        match next {
            None => {
                break;
            },
            Some(m) => {
                let ghost old_tail = out@.subrange(head, out@.len() as int);
                out.push(m);
                let ghost tail = out@.subrange(head, out@.len() as int);
                assert(tail =~= old_tail.push(m));
                assert forall|i: int, j: int| 0 <= i < j < tail.len() implies tail[i] < tail[j] by {
                    if j == tail.len() - 1 {
                        if i < old_tail.len() - 1 {
                            assert(old_tail[i] < old_tail[old_tail.len() - 1]);
                        }
                        assert(old_tail[old_tail.len() - 1] == out@[out@.len() - 2]);
                    }
                }
                assert forall|k: int| 0 <= k < encoders@.len() && current != Some(encoders@[k])
                    && encoders@[k] <= m implies tail.contains(encoders@[k]) by {
                    if last is Some && encoders@[k] <= last->0 {
                        assert(old_tail.contains(encoders@[k]));
                        let w = choose|w: int| 0 <= w < old_tail.len() && old_tail[w] == encoders@[k];
                        assert(tail[w] == encoders@[k]);
                    } else {
                        assert(encoders@[k] == m);
                        assert(tail[tail.len() - 1] == m);
                    }
                }
                assert forall|x: u32| tail.contains(x) implies encoders@.contains(x) && current != Some(x) by {
                    let w = choose|w: int| 0 <= w < tail.len() && tail[w] == x;
                    if w < old_tail.len() {
                        assert(old_tail[w] == x);
                    }
                }
                last = Some(m);
            },
        }
    }
    proof {
        let tail = out@.subrange(head, out@.len() as int);
        assert forall|x: u32| encoders@.contains(x) && current != Some(x) implies tail.contains(x) by {
            let k = choose|k: int| 0 <= k < encoders@.len() && encoders@[k] == x;
            assert(encoders@[k] == x);
        }
        if current is Some {
            assert(out@.drop_first() =~= tail);
        } else {
            assert(out@ =~= tail);
        }
    }
    out
}

/// The CRTC an encoder drives: its current CRTC when the connector can use it, else
/// the usable CRTC with the smallest handle; none when no CRTC is usable.
pub open spec fn spec_select_crtc(current: Option<u32>, usable: Seq<u32>) -> Option<u32> {
    if current is Some && usable.contains(current->0) {
        current
    } else if usable.len() == 0 {
        None
    } else {
        Some(choose|m: u32| usable.contains(m) && forall|k: int| 0 <= k < usable.len() ==> m <= usable[k])
    }
}

proof fn lemma_least_exists(usable: Seq<u32>)
    requires
        usable.len() > 0,
    ensures
        exists|m: u32| usable.contains(m) && forall|k: int| 0 <= k < usable.len() ==> m <= usable[k],
    decreases usable.len(),
{
    if usable.len() == 1 {
        assert(usable[0] == usable[0]);
        assert(usable.contains(usable[0]));
    } else {
        let rest = usable.drop_last();
        lemma_least_exists(rest);
        let m = choose|m: u32| rest.contains(m) && forall|k: int| 0 <= k < rest.len() ==> m <= rest[k];
        let j = choose|j: int| 0 <= j < rest.len() && rest[j] == m;
        assert(usable[j] == m);
        let last = usable.last();
        assert(usable[usable.len() - 1] == last);
        if last < m {
            assert forall|k: int| 0 <= k < usable.len() implies last <= usable[k] by {
                if k < usable.len() - 1 {
                    assert(usable[k] == rest[k]);
                }
            }
            assert(usable.contains(last));
        } else {
            assert forall|k: int| 0 <= k < usable.len() implies m <= usable[k] by {
                if k < usable.len() - 1 {
                    assert(usable[k] == rest[k]);
                }
            }
            assert(usable.contains(m));
        }
    }
}

/// An encoder keeps driving its current CRTC when the connector can use it; otherwise
/// it takes the usable CRTC with the smallest handle, and none only when no CRTC is
/// usable.
pub proof fn lemma_select_crtc_keeps_current_or_takes_least(current: Option<u32>, usable: Seq<u32>)
    ensures
        current is Some && usable.contains(current->0) ==> spec_select_crtc(current, usable) == current,
        !(current is Some && usable.contains(current->0)) && usable.len() > 0 ==> {
            &&& spec_select_crtc(current, usable) is Some
            &&& usable.contains(spec_select_crtc(current, usable)->0)
            &&& forall|k: int| 0 <= k < usable.len() ==> spec_select_crtc(current, usable)->0 <= usable[k]
        },
        usable.len() == 0 ==> spec_select_crtc(current, usable) is None,
{
    if usable.len() > 0 {
        lemma_least_exists(usable);
    }
}

/// Chooses the CRTC for an encoder among the `usable` ones.
pub fn select_crtc(current: Option<u32>, usable: &[u32]) -> (r: Option<u32>)
    ensures
        r == spec_select_crtc(current, usable@),
        r matches Some(c) ==> usable@.contains(c),
        r is None <==> usable@.len() == 0,
        current is Some && usable@.contains(current->0) ==> r == current,
        !(current is Some && usable@.contains(current->0)) ==> (r matches Some(m)
            ==> forall|k: int| 0 <= k < usable@.len() ==> m <= usable@[k]),
{
    proof {
        lemma_select_crtc_keeps_current_or_takes_least(current, usable@);
    }
    if let Some(c) = current {
        let mut i: usize = 0;
        while i < usable.len()
            invariant
                current == Some(c),
                i <= usable@.len(),
                forall|k: int| 0 <= k < i ==> usable@[k] != c,
            decreases usable@.len() - i,
        {
            if usable[i] == c {
                assert(usable@[i as int] == c);
                assert(usable@.contains(c));
                return Some(c);
            }
            i = i + 1;
        }
    }
    if usable.len() == 0 {
        return None;
    }
    let mut m = usable[0];
    let mut i: usize = 1;
    while i < usable.len()
        invariant
            1 <= i <= usable@.len(),
            usable@.contains(m),
            forall|k: int| 0 <= k < i ==> m <= usable@[k],
        decreases usable@.len() - i,
    {
        if usable[i] < m {
            m = usable[i];
            assert(usable@[i as int] == m);
        }
        i = i + 1;
    }
    proof {
        let chosen = choose|x: u32| usable@.contains(x) && forall|k: int| 0 <= k < usable@.len() ==> x <= usable@[k];
        assert(usable@.contains(m) && forall|k: int| 0 <= k < usable@.len() ==> m <= usable@[k]);
        let w = choose|w: int| 0 <= w < usable@.len() && usable@[w] == chosen;
        let v = choose|v: int| 0 <= v < usable@.len() && usable@[v] == m;
        assert(chosen <= usable@[v] && m <= usable@[w]);
    }
    Some(m)
}


/// Lexicographic order on strings (by character, a proper prefix first); for UTF-8
/// strings this is the order of `str`'s `Ord`.
pub open spec fn text_less(a: Seq<char>, b: Seq<char>) -> bool
    decreases a.len(),
{
    if a.len() == 0 {
        b.len() > 0
    } else if b.len() == 0 {
        false
    } else if a[0] != b[0] {
        a[0] < b[0]
    } else {
        text_less(a.drop_first(), b.drop_first())
    }
}

proof fn lemma_text_less_irreflexive(a: Seq<char>)
    ensures
        !text_less(a, a),
    decreases a.len(),
{
    if a.len() > 0 {
        lemma_text_less_irreflexive(a.drop_first());
    }
}

proof fn lemma_text_less_total(a: Seq<char>, b: Seq<char>)
    ensures
        a != b ==> (text_less(a, b) || text_less(b, a)),
        !(text_less(a, b) && text_less(b, a)),
    decreases a.len(),
{
    if a.len() > 0 && b.len() > 0 && a[0] == b[0] {
        lemma_text_less_total(a.drop_first(), b.drop_first());
        if a.drop_first() == b.drop_first() {
            assert(a =~= seq![a[0]] + a.drop_first());
            assert(b =~= seq![b[0]] + b.drop_first());
        }
    }
    if a.len() == 0 && b.len() == 0 {
        assert(a =~= b);
    }
}

proof fn lemma_text_less_transitive(a: Seq<char>, b: Seq<char>, c: Seq<char>)
    requires
        text_less(a, b),
        text_less(b, c),
    ensures
        text_less(a, c),
    decreases a.len(),
{
    if a.len() > 0 && b.len() > 0 && c.len() > 0 && a[0] == b[0] && b[0] == c[0] {
        lemma_text_less_transitive(a.drop_first(), b.drop_first(), c.drop_first());
    }
}

/// What orders the connectors of a device: interface name, interface id, handle.
pub struct ConnectorSortKey {
    pub interface: String,
    pub interface_id: u32,
    pub handle: u32,
}

/// The connector order, with the position in the input breaking ties (a stable sort).
pub open spec fn connector_before(keys: Seq<ConnectorSortKey>, i: int, j: int) -> bool {
    let a = keys[i];
    let b = keys[j];
    ||| text_less(a.interface@, b.interface@)
    ||| (a.interface@ == b.interface@ && (a.interface_id < b.interface_id
        || (a.interface_id == b.interface_id && (a.handle < b.handle || (a.handle == b.handle && i < j)))))
}

proof fn lemma_connector_before_total(keys: Seq<ConnectorSortKey>, i: int, j: int)
    ensures
        i != j ==> (connector_before(keys, i, j) || connector_before(keys, j, i)),
        !(connector_before(keys, i, j) && connector_before(keys, j, i)),
{
    lemma_text_less_total(keys[i].interface@, keys[j].interface@);
    lemma_text_less_irreflexive(keys[i].interface@);
}

proof fn lemma_connector_before_transitive(keys: Seq<ConnectorSortKey>, i: int, j: int, k: int)
    requires
        connector_before(keys, i, j),
        connector_before(keys, j, k),
    ensures
        connector_before(keys, i, k),
{
    let (a, b, c) = (keys[i].interface@, keys[j].interface@, keys[k].interface@);
    if text_less(a, b) && text_less(b, c) {
        lemma_text_less_transitive(a, b, c);
    }
}

fn text_less_exec(a: &str, b: &str) -> (r: bool)
    ensures
        r == text_less(a@, b@),
{
    let n = a.unicode_len();
    let m = b.unicode_len();
    let mut i: usize = 0;
    assert(a@.subrange(0, n as int) =~= a@);
    assert(b@.subrange(0, m as int) =~= b@);
    while i < n && i < m
        invariant
            n == a@.len(),
            m == b@.len(),
            i <= n,
            i <= m,
            text_less(a@.subrange(i as int, n as int), b@.subrange(i as int, m as int)) == text_less(a@, b@),
        decreases n - i,
    {
        let x = a.get_char(i);
        let y = b.get_char(i);
        let ghost sa = a@.subrange(i as int, n as int);
        let ghost sb = b@.subrange(i as int, m as int);
        assert(sa[0] == x && sb[0] == y);
        if x != y {
            return x < y;
        }
        assert(sa.drop_first() =~= a@.subrange(i + 1, n as int));
        assert(sb.drop_first() =~= b@.subrange(i + 1, m as int));
        i = i + 1;
    }
    i == n && i < m
}

fn connector_before_exec(keys: &[ConnectorSortKey], i: usize, j: usize) -> (r: bool)
    requires
        i < keys@.len(),
        j < keys@.len(),
    ensures
        r == connector_before(keys@, i as int, j as int),
{
    let a = &keys[i];
    let b = &keys[j];
    if text_less_exec(a.interface.as_str(), b.interface.as_str()) {
        return true;
    }
    if a.interface != b.interface {
        return false;
    }
    a.interface_id < b.interface_id || (a.interface_id == b.interface_id && (a.handle < b.handle
        || (a.handle == b.handle && i < j)))
}

/// The positions of `keys` in connector order: every position once, each before the
/// ones it precedes by interface name, interface id and handle (ties keep input order).
pub fn connector_order(keys: &[ConnectorSortKey]) -> (order: Vec<usize>)
    ensures
        order@.len() == keys@.len(),
        forall|k: int| 0 <= k < order@.len() ==> order@[k] < keys@.len(),
        forall|x: int, y: int| 0 <= x < y < order@.len()
            ==> connector_before(keys@, #[trigger] order@[x] as int, #[trigger] order@[y] as int),
{
    let n = keys.len();
    let mut used: Vec<bool> = Vec::new();
    let mut k: usize = 0;
    while k < n
        invariant
            k <= n,
            used@.len() == k,
            forall|t: int| 0 <= t < k ==> !used@[t],
        decreases n - k,
    {
        used.push(false);
        k = k + 1;
    }
    let mut order: Vec<usize> = Vec::new();
    while order.len() < n
        invariant
            n == keys@.len(),
            used@.len() == n,
            order@.len() <= n,
            forall|t: int| 0 <= t < order@.len() ==> order@[t] < n && used@[order@[t] as int],
            forall|x: int, y: int| 0 <= x < y < order@.len() ==> order@[x] != order@[y],
            forall|t: int| 0 <= t < n && used@[t] ==> exists|x: int| 0 <= x < order@.len() && order@[x] == t,
            forall|x: int, y: int| 0 <= x < y < order@.len()
                ==> connector_before(keys@, #[trigger] order@[x] as int, #[trigger] order@[y] as int),
            forall|x: int, t: int| #![trigger order@[x], used@[t]]
                0 <= x < order@.len() && 0 <= t < n && !used@[t] ==> connector_before(keys@, order@[x] as int, t),
        decreases n - order@.len(),
    {
        // Some position is still unused: the used ones are exactly those in `order`.
        proof {
            lemma_unused_exists(used@, order@, n as int);
        }
        let mut best: usize = n;
        let mut t: usize = 0;
        while t < n
            invariant
                n == keys@.len(),
                used@.len() == n,
                t <= n,
                best == n || (best < t && !used@[best as int]),
                best == n ==> forall|u: int| 0 <= u < t ==> used@[u],
                best < n ==> forall|u: int| 0 <= u < t && !used@[u] && u != best ==> connector_before(keys@, best as int, u),
            decreases n - t,
        {
            if !used[t] {
                if best == n {
                    best = t;
                } else if connector_before_exec(keys, t, best) {
                    proof {
                        assert forall|u: int| 0 <= u < t + 1 && !used@[u] && u != t implies connector_before(keys@, t as int, u) by {
                            if u != best {
                                lemma_connector_before_transitive(keys@, t as int, best as int, u);
                            }
                        }
                    }
                    best = t;
                } else {
                    proof {
                        lemma_connector_before_total(keys@, t as int, best as int);
                    }
                }
            }
            t = t + 1;
        }
        proof {
            if best == n {
                let w = choose|w: int| 0 <= w < n && !used@[w];
                assert(used@[w]);
            }
        }
        let ghost old_order = order@;
        let ghost old_used = used@;
        order.push(best);
        used.set(best, true);
        proof {
            assert forall|x: int, y: int| 0 <= x < y < order@.len()
                implies connector_before(keys@, #[trigger] order@[x] as int, #[trigger] order@[y] as int) by {
                if y == old_order.len() {
                    assert(old_order[x] == order@[x]);
                    assert(!old_used[best as int]);
                }
            }
            assert forall|x: int, u: int| #![trigger order@[x], used@[u]]
                0 <= x < order@.len() && 0 <= u < n && !used@[u] implies connector_before(keys@, order@[x] as int, u) by {
                assert(!old_used[u] && u != best as int);
                if x == old_order.len() {
                } else {
                    assert(old_order[x] == order@[x]);
                }
            }
            assert forall|x: int, y: int| 0 <= x < y < order@.len() implies order@[x] != order@[y] by {
                if y == old_order.len() {
                    assert(old_used[old_order[x] as int]);
                }
            }
            assert forall|u: int| 0 <= u < n && used@[u] implies exists|x: int| 0 <= x < order@.len() && order@[x] == u by {
                if u == best as int {
                    assert(order@[old_order.len() as int] == u);
                } else {
                    assert(old_used[u]);
                    let x = choose|x: int| 0 <= x < old_order.len() && old_order[x] == u;
                    assert(order@[x] == u);
                }
            }
        }
    }
    order
}

/// While fewer positions than `n` are in `order`, one of the `n` is still unused.
proof fn lemma_unused_exists(used: Seq<bool>, order: Seq<usize>, n: int)
    requires
        used.len() == n,
        order.len() < n,
        forall|t: int| 0 <= t < order.len() ==> order[t] < n,
        forall|x: int, y: int| 0 <= x < y < order.len() ==> order[x] != order[y],
        forall|t: int| 0 <= t < n && used[t] ==> exists|x: int| 0 <= x < order.len() && order[x] == t,
    ensures
        exists|w: int| 0 <= w < n && !used[w],
{
    if forall|w: int| 0 <= w < n ==> used[w] {
        // Every position below n occurs in `order`, which is too short to hold them all.
        let f = |t: int| choose|x: int| 0 <= x < order.len() && order[x] == t;
        assert forall|t: int| 0 <= t < n implies 0 <= #[trigger] f(t) < order.len() && order[f(t)] == t by {
            assert(used[t]);
        }
        lemma_injection_bound(f, order, n);
    }
}

/// An injection of `0..n` into the positions of `order` needs `n <= order.len()`.
proof fn lemma_injection_bound(f: spec_fn(int) -> int, order: Seq<usize>, n: int)
    requires
        0 <= n,
        forall|t: int| 0 <= t < n ==> 0 <= #[trigger] f(t) < order.len() && order[f(t)] == t,
    ensures
        n <= order.len(),
{
    let domain = vstd::set_lib::set_int_range(0, n);
    let range = vstd::set_lib::set_int_range(0, order.len() as int);
    vstd::set_lib::lemma_int_range(0, n);
    vstd::set_lib::lemma_int_range(0, order.len() as int);
    let image = domain.map(f);
    assert forall|a: int, b: int| domain.contains(a) && domain.contains(b) && f(a) == f(b) implies a == b by {
        assert(order[f(a)] == a && order[f(b)] == b);
    }
    assert(vstd::relations::injective_on(f, domain));
    vstd::set_lib::lemma_map_size(domain, image, f);
    assert forall|x: int| image.contains(x) implies range.contains(x) by {
        let t = choose|t: int| domain.contains(t) && x == f(t);
    }
    vstd::set_lib::lemma_len_subset(image, range);
}


/// Whether an opened device may carry the claim: any device, or only the forced one.
pub fn device_allowed(device_path: &str, forced_drm_path: Option<&str>) -> (r: bool)
    ensures
        r == (match forced_drm_path {
            Some(f) => path_same(f@, device_path@),
            None => true,
        }),
{
    match forced_drm_path {
        Some(f) => paths_equal(f, device_path),
        None => true,
    }
}

/// A connector route found on an allowed device: the device and the connector's name.
pub struct ClaimCandidate {
    pub device_path: String,
    pub connector_name: String,
}

/// Why no candidate was chosen for the claim.
#[derive(Clone, Copy, Debug, PartialEq, Eq, Structural)]
pub enum ClaimChoiceError {
    /// A device was forced and offered no connected output route.
    ForcedDeviceRejected,
    /// An output was forced and no route uses that connector.
    ForcedOutputRejected,
    /// The output claimed before is gone and more than one replacement is possible.
    RecoveryAmbiguous,
    /// No route at all.
    NoCandidate,
}

/// Whether candidate `c` survives the forced output filter.
pub open spec fn kept(c: ClaimCandidate, forced_output_name: Option<Seq<char>>) -> bool {
    match forced_output_name {
        Some(name) => c.connector_name@ == name,
        None => true,
    }
}

/// Whether candidate `c` is the output claimed before.
pub open spec fn is_last_good(c: ClaimCandidate, last_good: OutputIdentity) -> bool {
    path_same(c.device_path@, last_good.device_path@) && c.connector_name@ == last_good.connector_name@
}

/// How many of the first `n` candidates survive the forced output filter.
pub open spec fn kept_count(cs: Seq<ClaimCandidate>, forced_output_name: Option<Seq<char>>, n: int) -> nat
    decreases n,
{
    if n <= 0 || n > cs.len() {
        0
    } else {
        kept_count(cs, forced_output_name, n - 1) + if kept(cs[n - 1], forced_output_name) { 1nat } else { 0nat }
    }
}

/// The first kept candidate at or after `i` that is the output claimed before (or, with
/// no previous output, the first kept candidate at all).
pub open spec fn first_kept_from(cs: Seq<ClaimCandidate>, forced_output_name: Option<Seq<char>>, last_good: Option<OutputIdentity>, i: int) -> Option<int>
    decreases cs.len() - i,
{
    if i < 0 || i >= cs.len() {
        None
    } else if kept(cs[i], forced_output_name) && (match last_good {
        Some(g) => is_last_good(cs[i], g),
        None => true,
    }) {
        Some(i)
    } else {
        first_kept_from(cs, forced_output_name, last_good, i + 1)
    }
}

/// The candidate the claim goes to, as an index into `cs` (the routes of the allowed
/// devices, devices in selection order): with a forced device, there must be a route;
/// with a forced output, a route on that connector; when recovering, the route of the
/// previous output, else the single route left; otherwise the first route.
pub open spec fn spec_choose_claim_candidate(
    cs: Seq<ClaimCandidate>,
    forced_drm_path: bool,
    forced_output_name: Option<Seq<char>>,
    last_good: Option<OutputIdentity>,
) -> Result<int, ClaimChoiceError> {
    if forced_drm_path && cs.len() == 0 {
        Err(ClaimChoiceError::ForcedDeviceRejected)
    } else if forced_output_name is Some && kept_count(cs, forced_output_name, cs.len() as int) == 0 {
        Err(ClaimChoiceError::ForcedOutputRejected)
    } else {
        match last_good {
            Some(g) => match first_kept_from(cs, forced_output_name, last_good, 0) {
                Some(i) => Ok(i),
                None => if kept_count(cs, forced_output_name, cs.len() as int) == 1 {
                    Ok(first_kept_from(cs, forced_output_name, None, 0)->0)
                } else {
                    Err(ClaimChoiceError::RecoveryAmbiguous)
                },
            },
            None => match first_kept_from(cs, forced_output_name, None, 0) {
                Some(i) => Ok(i),
                None => Err(ClaimChoiceError::NoCandidate),
            },
        }
    }
}

fn kept_exec(c: &ClaimCandidate, forced_output_name: Option<&str>) -> (r: bool)
    ensures
        r == kept(*c, match forced_output_name { Some(n) => Some(n@), None => None }),
{
    match forced_output_name {
        Some(n) => {
            let name = String::from_str(n);
            c.connector_name == name
        },
        None => true,
    }
}

proof fn lemma_first_kept_exists(cs: Seq<ClaimCandidate>, f: Option<Seq<char>>, i: int)
    requires
        0 <= i <= cs.len(),
    ensures
        kept_count(cs, f, cs.len() as int) > kept_count(cs, f, i) ==> first_kept_from(cs, f, None, i) is Some,
        first_kept_from(cs, f, None, i) matches Some(k) ==> i <= k < cs.len() && kept(cs[k], f),
    decreases cs.len() - i,
{
    if i < cs.len() {
        lemma_first_kept_exists(cs, f, i + 1);
    }
}

proof fn lemma_kept_count_mono(cs: Seq<ClaimCandidate>, f: Option<Seq<char>>, i: int, j: int)
    requires
        0 <= i <= j <= cs.len(),
    ensures
        kept_count(cs, f, i) <= kept_count(cs, f, j),
    decreases j - i,
{
    if i < j {
        lemma_kept_count_mono(cs, f, i, j - 1);
    }
}

/// Chooses the candidate for an output claim (see `spec_choose_claim_candidate`).
pub fn choose_claim_candidate(
    candidates: &[ClaimCandidate],
    forced_drm_path: bool,
    forced_output_name: Option<&str>,
    last_good: Option<&OutputIdentity>,
) -> (r: Result<usize, ClaimChoiceError>)
    ensures
        match spec_choose_claim_candidate(
            candidates@,
            forced_drm_path,
            match forced_output_name { Some(n) => Some(n@), None => None },
            match last_good { Some(g) => Some(*g), None => None },
        ) {
            Ok(i) => r == Ok::<usize, ClaimChoiceError>(i as usize),
            Err(e) => r == Err::<usize, ClaimChoiceError>(e),
        },
{
    let ghost cs = candidates@;
    let ghost f = match forced_output_name { Some(n) => Some(n@), None => None::<Seq<char>> };
    let ghost lg = match last_good { Some(g) => Some(*g), None => None::<OutputIdentity> };
    let n = candidates.len();
    if forced_drm_path && n == 0 {
        return Err(ClaimChoiceError::ForcedDeviceRejected);
    }
    // One pass: how many candidates are kept, the first kept one, and the first kept one
    // that is the previous output.
    let mut count: usize = 0;
    let mut first: Option<usize> = None;
    let mut previous: Option<usize> = None;
    let mut i: usize = 0;
    while i < n
        invariant
            n == cs.len(),
            cs == candidates@,
            f == (match forced_output_name { Some(n) => Some(n@), None => None::<Seq<char>> }),
            lg == (match last_good { Some(g) => Some(*g), None => None::<OutputIdentity> }),
            i <= n,
            count == kept_count(cs, f, i as int),
            count <= i,
            first is None ==> first_kept_from(cs, f, None, 0) == first_kept_from(cs, f, None, i as int),
            first matches Some(k) ==> first_kept_from(cs, f, None, 0) == Some(k as int),
            lg is Some ==> (previous is None ==> first_kept_from(cs, f, lg, 0) == first_kept_from(cs, f, lg, i as int)),
            lg is Some ==> (previous matches Some(k) ==> first_kept_from(cs, f, lg, 0) == Some(k as int)),
        decreases n - i,
    {
        if kept_exec(&candidates[i], forced_output_name) {
            count = count + 1;
            if first.is_none() {
                first = Some(i);
            }
            if previous.is_none() {
                match last_good {
                    Some(g) => {
                        if paths_equal(candidates[i].device_path.as_str(), g.device_path.as_str())
                            && candidates[i].connector_name == g.connector_name {
                            previous = Some(i);
                        }
                    },
                    None => {},
                }
            }
        }
        i = i + 1;
    }
    if forced_output_name.is_some() && count == 0 {
        return Err(ClaimChoiceError::ForcedOutputRejected);
    }
    proof {
        lemma_first_kept_exists(cs, f, 0);
    }
    match last_good {
        Some(_) => match previous {
            Some(k) => Ok(k),
            None => {
                if count == 1 {
                    match first {
                        Some(k) => Ok(k),
                        None => Err(ClaimChoiceError::RecoveryAmbiguous),
                    }
                } else {
                    Err(ClaimChoiceError::RecoveryAmbiguous)
                }
            },
        },
        None => match first {
            Some(k) => Ok(k),
            None => Err(ClaimChoiceError::NoCandidate),
        },
    }
}

} // verus!
