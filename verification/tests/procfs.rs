use surf_ace_compositor::procfs::{
    LINEAGE_MAX_STEPS, LineageDecision, LineageWalk, advance_lineage_walk, begin_lineage_walk,
    environ_value, stat_parent_pid,
};

#[test]
fn process_lineage_match_accepts_exact_pid() {
    let pid: u32 = 4242;
    let (_, decision) = begin_lineage_walk(pid, pid);
    assert_eq!(decision, LineageDecision::Descends);
}

#[test]
fn environ_lookup_returns_the_first_entry_with_the_exact_name() {
    let environ = b"PATH=/usr/bin\0TOKEN=abc=def\0TOKEN=second\0";
    assert_eq!(environ_value(environ, "TOKEN"), Some(b"abc=def".to_vec()));
    assert_eq!(environ_value(environ, "PATH"), Some(b"/usr/bin".to_vec()));
    assert_eq!(environ_value(environ, "TOK"), None);
    assert_eq!(environ_value(environ, "TOKEN=abc"), None);
    assert_eq!(environ_value(b"", "TOKEN"), None);
    // Entries without '=' are skipped; the last entry needs no trailing NUL.
    assert_eq!(environ_value(b"garbage\0EMPTY=\0LAST=x", "EMPTY"), Some(Vec::new()));
    assert_eq!(environ_value(b"garbage\0EMPTY=\0LAST=x", "LAST"), Some(b"x".to_vec()));
    assert_eq!(environ_value(b"=value\0", ""), Some(b"value".to_vec()));
}

#[test]
fn stat_parent_pid_reads_the_field_after_the_state() {
    assert_eq!(stat_parent_pid("1234 (foot) S 987 1234 1234 0 -1"), Some(987));
    // The command name may hold spaces and parentheses; the last ')' ends it.
    assert_eq!(stat_parent_pid("77 (a) b (c)) R 55 77"), Some(55));
    assert_eq!(stat_parent_pid("77 (x)\tS\t+12 0"), Some(12));
    assert_eq!(stat_parent_pid("77 (x) S"), None);
    assert_eq!(stat_parent_pid("77 (x) S -3"), None);
    assert_eq!(stat_parent_pid("77 (x) S 4294967296"), None);
    assert_eq!(stat_parent_pid("77 (x) S 4294967295"), Some(u32::MAX));
    assert_eq!(stat_parent_pid("77 (x) S 000000000000042"), Some(42));
    assert_eq!(stat_parent_pid("no paren S 3"), None);
    assert_eq!(stat_parent_pid("77 (x) S 4x"), None);
}

#[test]
fn lineage_walk_follows_parents_to_the_expected_ancestor() {
    let (mut walk, first) = begin_lineage_walk(300, 100);
    assert_eq!(first, LineageDecision::ReadStat(300));
    assert_eq!(
        advance_lineage_walk(&mut walk, Some("300 (sh) S 200 300")),
        LineageDecision::ReadStat(200)
    );
    assert_eq!(walk.current, 200);
    assert_eq!(walk.steps_left, LINEAGE_MAX_STEPS - 1);
    assert_eq!(advance_lineage_walk(&mut walk, Some("200 (sh) S 100 200")), LineageDecision::Descends);
}

#[test]
fn lineage_walk_stops_at_init_self_parent_unreadable_stat_and_step_budget() {
    let (mut walk, _) = begin_lineage_walk(300, 100);
    assert_eq!(advance_lineage_walk(&mut walk, Some("300 (sh) S 1 300")), LineageDecision::Unrelated);
    let (mut walk, _) = begin_lineage_walk(300, 100);
    assert_eq!(advance_lineage_walk(&mut walk, Some("300 (sh) S 300 300")), LineageDecision::Unrelated);
    let (mut walk, _) = begin_lineage_walk(300, 100);
    assert_eq!(advance_lineage_walk(&mut walk, None), LineageDecision::Unrelated);
    let mut walk = LineageWalk { expected_ancestor: 100, current: 300, steps_left: 1 };
    assert_eq!(advance_lineage_walk(&mut walk, Some("300 (sh) S 200 300")), LineageDecision::Unrelated);
    assert_eq!(walk.steps_left, 0);
}
