use pristimer::backup::backups_to_prune;

fn names(list: &[&str]) -> Vec<String> {
    list.iter().map(|s| s.to_string()).collect()
}

#[test]
fn keeps_the_newest_seven_snapshots() {
    let found = names(&[
        "pristimer-2026-09-05.db",
        "pristimer-2026-09-01.db",
        "notes.txt",
        "pristimer-2026-09-09.db",
        "pristimer-2026-09-03.db",
        "pristimer-2026-09-02.db",
        "pristimer-2026-09-08.db",
        "pristimer-2026-09-04.db",
        "pristimer-2026-09-07.db",
        "pristimer-2026-09-06.db",
        "pristimer.db",
    ]);
    assert_eq!(
        backups_to_prune(found),
        names(&["pristimer-2026-09-01.db", "pristimer-2026-09-02.db"])
    );
}

#[test]
fn seven_or_fewer_snapshots_are_all_kept() {
    let found: Vec<String> = (1..=7).map(|d| format!("pristimer-2026-09-0{d}.db")).collect();
    assert!(backups_to_prune(found).is_empty());
    assert!(backups_to_prune(Vec::new()).is_empty());
}

#[test]
fn other_files_are_never_pruned() {
    let mut found: Vec<String> = (0..10).map(|d| format!("other-{d}.db")).collect();
    found.push("pristimer-2026-01-01.db.bak".to_string());
    assert!(backups_to_prune(found).is_empty());
}
