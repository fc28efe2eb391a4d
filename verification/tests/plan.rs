use rrd_migration::plan::{
    already_migrated, plan_migration, progress_due, resource_present, set_threads, Args,
    MigrationStep, MAX_AUTO_THREADS,
};

fn args_with_threads(threads: Option<usize>) -> Args {
    Args { migrate: false, force: false, threads, source: None, target: None, resources: None }
}

#[test]
fn requested_thread_count_is_taken_as_it_is() {
    assert_eq!(set_threads(&args_with_threads(Some(9)), 2), 9);
    assert_eq!(set_threads(&args_with_threads(Some(1)), 64), 1);
    assert_eq!(set_threads(&args_with_threads(Some(0)), 64), 0);
}

#[test]
fn thread_count_follows_the_processors() {
    let auto = args_with_threads(None);
    assert_eq!(set_threads(&auto, 0), 1);
    assert_eq!(set_threads(&auto, 1), 1);
    assert_eq!(set_threads(&auto, 3), 1);
    assert_eq!(set_threads(&auto, 4), 1);
    assert_eq!(set_threads(&auto, 8), 2);
    assert_eq!(set_threads(&auto, 15), 3);
    assert_eq!(set_threads(&auto, 23), 5);
    assert_eq!(set_threads(&auto, 24), 6);
    assert_eq!(set_threads(&auto, 128), 6);
    assert_eq!(set_threads(&auto, usize::MAX), MAX_AUTO_THREADS);
}

#[test]
fn dry_run_converts_nothing() {
    assert_eq!(plan_migration(false, false, false), MigrationStep::SkipDryRun);
    assert_eq!(plan_migration(true, false, false), MigrationStep::SkipDryRun);
    assert_eq!(plan_migration(false, false, true), MigrationStep::SkipDryRun);
    assert_eq!(plan_migration(true, false, true), MigrationStep::SkipDryRun);
}

#[test]
fn real_run_respects_existing_targets() {
    assert_eq!(plan_migration(false, true, false), MigrationStep::Convert);
    assert_eq!(plan_migration(true, true, false), MigrationStep::RefuseExisting);
    assert_eq!(plan_migration(false, true, true), MigrationStep::Convert);
    assert_eq!(plan_migration(true, true, true), MigrationStep::Convert);
}

#[test]
fn notice_for_existing_target() {
    assert!(already_migrated(true, false));
    assert!(!already_migrated(true, true));
    assert!(!already_migrated(false, false));
    assert!(!already_migrated(false, true));
}

#[test]
fn progress_line_every_hundred() {
    assert!(!progress_due(0));
    assert!(!progress_due(1));
    assert!(!progress_due(99));
    assert!(progress_due(100));
    assert!(!progress_due(101));
    assert!(progress_due(200));
    assert!(progress_due(1000));
}

#[test]
fn resource_is_found_by_its_quoted_name() {
    let list = b"{\n\"version\": 3,\n\"ids\": {\n\"100\": { \"node\": \"testnode\", \"type\": \"qemu\" },\n\"4000\": { \"node\": \"other\" }}\n}\n";
    assert!(resource_present(list, b"100"));
    assert!(resource_present(list, b"4000"));
    assert!(resource_present(list, b"testnode"));
    assert!(!resource_present(list, b"400"));
    assert!(!resource_present(list, b"10"));
    assert!(!resource_present(list, b"00"));
    assert!(!resource_present(list, b"500"));
}

#[test]
fn resource_lookup_edge_cases() {
    assert!(!resource_present(b"", b""));
    assert!(!resource_present(b"\"", b""));
    assert!(resource_present(b"\"\"", b""));
    assert!(resource_present(b"\"a\"", b"a"));
    assert!(!resource_present(b"\"a", b"a"));
    assert!(!resource_present(b"a\"", b"a"));
    assert!(!resource_present(b"\"a\"", b"abcdef"));
    assert!(resource_present(b"xx\"ab\"", b"ab"));
    assert!(resource_present(b"\"ab\"xx", b"ab"));
    assert!(!resource_present(b"\"ab \"", b"ab"));
    assert!(resource_present(b"\"\"a\"\"", b"a"));
}
