use rambo::extract::{extract_creation_datetime_from_media_source, ExtractError, MediaMetadata};
use rambo::glob::{evaluate_files_from_glob_pattern, GlobEntry, GlobEvaluationError};
use rambo::path::{find_last_from, lower_byte_exec, lowercase_le, target_path};
use rambo::rename::{rename_file, RenameAction};
use rambo::sort::sort_by_lowercase_path;
use rambo::time::{with_offset, Timestamp};
use rambo::{
    configure, discovery_verdict, process_item, ConfigError, Discovery, ItemProbe, Outcome,
    RamboOptions, RunConfig, Statistics,
};

fn b(s: &str) -> Vec<u8> {
    s.as_bytes().to_vec()
}

fn utc(seconds: i64) -> Timestamp {
    Timestamp { seconds, nanos: 0, offset_seconds: 0 }
}

fn options(no_dry_run: bool, format: &str, time_offset: Option<&str>) -> RamboOptions {
    RamboOptions {
        pattern: "*.jpg".to_string(),
        no_dry_run,
        case_insensitive: false,
        format: format.to_string(),
        time_offset: time_offset.map(|s| s.to_string()),
        include_symlinks: false,
    }
}

fn config(no_dry_run: bool, format: &str, time_offset: Option<&str>) -> RunConfig {
    match configure(&options(no_dry_run, format, time_offset)) {
        Ok(c) => c,
        Err(e) => panic!("configuration refused: {:?}", e),
    }
}

fn matched(path: &str, canonical: &str) -> GlobEntry {
    GlobEntry::Matched { path: b(path), is_symlink: false, canonical: Ok(b(canonical)) }
}

// 2022-03-04T10:00:00+00:00
const MARCH_FOURTH: i64 = 1646388000;

#[test]
fn statistics_start_at_zero() {
    let s = Statistics::new();
    assert_eq!((s.skipped_files, s.failed_files, s.renamed_files), (0, 0, 0));
    assert!(s.is_success());
}

#[test]
fn statistics_count_each_outcome_once() {
    let mut s = Statistics::new();
    s.record(Outcome::Skipped);
    s.record(Outcome::Renamed);
    s.record(Outcome::Renamed);
    s.record(Outcome::Failed);
    assert_eq!((s.skipped_files, s.failed_files, s.renamed_files), (1, 1, 2));
    assert!(!s.is_success());
}

#[test]
fn statistics_record_moves_and_discovery_errors() {
    let mut s = Statistics::new();
    s.record_move(true);
    s.record_move(false);
    s.record_discovery_errors(3);
    assert_eq!((s.skipped_files, s.failed_files, s.renamed_files), (0, 4, 1));
}

#[test]
fn lower_byte_changes_only_capitals() {
    assert_eq!(lower_byte_exec(b'A'), b'a');
    assert_eq!(lower_byte_exec(b'Z'), b'z');
    assert_eq!(lower_byte_exec(b'a'), b'a');
    assert_eq!(lower_byte_exec(b'.'), b'.');
    assert_eq!(lower_byte_exec(b'@'), b'@');
    assert_eq!(lower_byte_exec(b'['), b'[');
}

#[test]
fn find_last_from_finds_last_occurrence() {
    assert_eq!(find_last_from(&b("/a/b/c.jpg"), 0, b'/'), Some(4));
    assert_eq!(find_last_from(&b("/a/b/c.jpg"), 5, b'/'), None);
    assert_eq!(find_last_from(&b("a.b.c"), 0, b'.'), Some(3));
    assert_eq!(find_last_from(&b(""), 0, b'.'), None);
}

#[test]
fn listing_order_ignores_case() {
    assert!(lowercase_le(&b("/d/a.JPG"), &b("/d/B.jpg")));
    assert!(!lowercase_le(&b("/d/B.jpg"), &b("/d/a.JPG")));
    assert!(lowercase_le(&b("/d/IMG"), &b("/d/img")));
    assert!(lowercase_le(&b("/d/img"), &b("/d/IMG")));
    assert!(lowercase_le(&b("/d/a"), &b("/d/ab")));
    assert!(!lowercase_le(&b("/d/ab"), &b("/d/a")));
}

#[test]
fn sort_orders_by_lowercase_path() {
    let sorted = sort_by_lowercase_path(vec![b("/x/c"), b("/x/B"), b("/x/a"), b("/x/A2")]);
    assert_eq!(sorted, vec![b("/x/a"), b("/x/A2"), b("/x/B"), b("/x/c")]);
    let empty: Vec<Vec<u8>> = Vec::new();
    assert!(sort_by_lowercase_path(empty).is_empty());
}

#[test]
fn target_lowercases_the_extension() {
    assert_eq!(target_path(&b("/media/Video.MP4"), &b("2020-01-01")), b("/media/2020-01-01.mp4"));
    assert_eq!(target_path(&b("/media/a.JpEg"), &b("x")), b("/media/x.jpeg"));
}

#[test]
fn target_without_extension_keeps_none() {
    assert_eq!(target_path(&b("/media/README"), &b("new")), b("/media/new"));
    assert_eq!(target_path(&b("/media/.hidden"), &b("new")), b("/media/new"));
    assert_eq!(target_path(&b("/media/trailing."), &b("new")), b("/media/new"));
}

#[test]
fn target_of_bare_name_and_dotted_stem() {
    assert_eq!(target_path(&b("photo.PNG"), &b("2020")), b("2020.png"));
    assert_eq!(target_path(&b("/p/a.tar.GZ"), &b("s.t")), b("/p/s.t.gz"));
}

#[test]
fn rename_skips_a_file_with_the_right_name() {
    let action = rename_file(&b("/m/2020-01-01.jpg"), &b("2020-01-01"), false);
    assert!(matches!(action, RenameAction::Skip));
    let action = rename_file(&b("/m/2020-01-01.jpg"), &b("2020-01-01"), true);
    assert!(matches!(action, RenameAction::Skip));
}

#[test]
fn rename_skips_on_second_run() {
    let first = rename_file(&b("/m/IMG_1.JPG"), &b("2020-01-01"), false);
    let target = match first {
        RenameAction::Move(t) => t,
        other => panic!("expected a move, got {:?}", other),
    };
    assert_eq!(target, b("/m/2020-01-01.jpg"));
    assert!(matches!(rename_file(&target, &b("2020-01-01"), false), RenameAction::Skip));
}

#[test]
fn rename_dry_run_only_previews() {
    match rename_file(&b("/m/IMG_1.JPG"), &b("2020-01-01"), true) {
        RenameAction::Preview(t) => assert_eq!(t, b("/m/2020-01-01.jpg")),
        other => panic!("expected a preview, got {:?}", other),
    }
}

#[test]
fn rename_outcomes() {
    assert_eq!(RenameAction::Skip.outcome(false), Outcome::Skipped);
    assert_eq!(RenameAction::Preview(b("/x")).outcome(false), Outcome::Renamed);
    assert_eq!(RenameAction::Move(b("/x")).outcome(true), Outcome::Renamed);
    assert_eq!(RenameAction::Move(b("/x")).outcome(false), Outcome::Failed);
}

#[test]
fn glob_results_are_listed_case_insensitively() {
    let entries = vec![matched("B.jpg", "/d/B.jpg"), matched("a.JPG", "/d/a.JPG")];
    let (paths, errors) = evaluate_files_from_glob_pattern(entries, false);
    assert_eq!(paths, vec![b("/d/a.JPG"), b("/d/B.jpg")]);
    assert!(errors.is_empty());
}

#[test]
fn glob_drops_symlinks_unless_included() {
    let entries = || {
        vec![
            GlobEntry::Matched { path: b("link.jpg"), is_symlink: true, canonical: Ok(b("/d/t.jpg")) },
            GlobEntry::Matched {
                path: b("broken.jpg"),
                is_symlink: true,
                canonical: Err("no such file".to_string()),
            },
            matched("z.jpg", "/d/z.jpg"),
        ]
    };
    let (paths, errors) = evaluate_files_from_glob_pattern(entries(), false);
    assert_eq!(paths, vec![b("/d/z.jpg")]);
    assert!(errors.is_empty());

    let (paths, errors) = evaluate_files_from_glob_pattern(entries(), true);
    assert_eq!(paths, vec![b("/d/t.jpg"), b("/d/z.jpg")]);
    assert_eq!(errors.len(), 1);
    assert!(matches!(errors[0], GlobEvaluationError::Other { .. }));
    assert_eq!(errors[0].path(), &b("broken.jpg"));
    assert_eq!(errors[0].description(), "no such file");
}

#[test]
fn glob_errors_are_kept_and_sorted() {
    let entries = vec![
        GlobEntry::Unreadable { path: b("/d/Q"), description: "permission denied".to_string() },
        GlobEntry::Matched {
            path: b("/d/p"),
            is_symlink: false,
            canonical: Err("permission denied".to_string()),
        },
        matched("/d/r", "/d/r"),
    ];
    let (paths, errors) = evaluate_files_from_glob_pattern(entries, false);
    assert_eq!(paths, vec![b("/d/r")]);
    assert_eq!(errors.len(), 2);
    assert_eq!(errors[0].path(), &b("/d/p"));
    assert!(matches!(errors[0], GlobEvaluationError::Other { .. }));
    assert_eq!(errors[1].path(), &b("/d/Q"));
    assert!(matches!(errors[1], GlobEvaluationError::GlobError { .. }));
}

#[test]
fn glob_of_nothing_is_empty() {
    let (paths, errors) = evaluate_files_from_glob_pattern(Vec::new(), false);
    assert!(paths.is_empty());
    assert!(errors.is_empty());
}

#[test]
fn configure_parses_offsets() {
    assert_eq!(config(false, "%Y", Some("+05:00")).time_offset, Some(18000));
    assert_eq!(config(false, "%Y", Some("-02:30")).time_offset, Some(-9000));
    assert_eq!(config(false, "%Y", None).time_offset, None);
    let c = config(true, "%Y-%m", None);
    assert!(!c.dry_run);
    assert_eq!(c.format, "%Y-%m");
    assert!(config(false, "%Y", None).dry_run);
}

#[test]
fn configure_refuses_a_bad_offset() {
    match configure(&options(false, "%Y", Some("five"))) {
        Err(e) => assert_eq!(e, ConfigError::InvalidTimeOffset("five".to_string())),
        Ok(_) => panic!("a bad offset was accepted"),
    }
}

#[test]
fn offset_override_replaces_the_offset() {
    let t = Timestamp { seconds: 100, nanos: 7, offset_seconds: 3600 };
    assert_eq!(with_offset(t, Some(18000)), Timestamp { seconds: 100, nanos: 7, offset_seconds: 18000 });
    assert_eq!(with_offset(t, None), t);
}

#[test]
fn discovery_verdicts() {
    assert_eq!(discovery_verdict(0, 0), Discovery::NothingMatched);
    assert_eq!(discovery_verdict(0, 2), Discovery::NothingReadable);
    assert_eq!(discovery_verdict(3, 2), Discovery::Proceed);
}

#[test]
fn extraction_without_metadata() {
    assert_eq!(
        extract_creation_datetime_from_media_source(&MediaMetadata::Missing),
        Err(ExtractError::NoMetadata)
    );
    assert_eq!(
        extract_creation_datetime_from_media_source(&MediaMetadata::Unparsable("bad".to_string())),
        Err(ExtractError::ParseError("bad".to_string()))
    );
}

#[test]
fn item_that_is_not_a_file_is_ignored() {
    let c = config(true, "%Y", None);
    let mut s = Statistics::new();
    assert_eq!(process_item(&c, &b("/d/sub"), &ItemProbe::NotAFile, &mut s), None);
    assert_eq!(s, Statistics::new());
    assert!(s.is_success());
}

#[test]
fn item_failures_are_counted() {
    let c = config(true, "%Y", None);
    let mut s = Statistics::new();
    assert_eq!(process_item(&c, &b("/d/x.jpg"), &ItemProbe::OpenFailed("denied".to_string()), &mut s), None);
    let probe = ItemProbe::Extracted(Err(ExtractError::TagNotFound));
    assert_eq!(process_item(&c, &b("/d/y.jpg"), &probe, &mut s), None);
    assert_eq!((s.skipped_files, s.failed_files, s.renamed_files), (0, 2, 0));
}

#[test]
fn item_with_a_bad_template_fails() {
    let c = config(true, "%Y-%Q", None);
    let mut s = Statistics::new();
    let probe = ItemProbe::Extracted(Ok(utc(MARCH_FOURTH)));
    assert_eq!(process_item(&c, &b("/d/x.jpg"), &probe, &mut s), None);
    assert_eq!((s.skipped_files, s.failed_files, s.renamed_files), (0, 1, 0));
}

#[test]
fn dry_run_counts_without_moving() {
    let c = config(false, "%Y-%m-%d_%H-%M-%S", None);
    let mut s = Statistics::new();
    let probe = ItemProbe::Extracted(Ok(utc(MARCH_FOURTH)));
    assert_eq!(process_item(&c, &b("/d/a.jpg"), &probe, &mut s), None);
    assert_eq!((s.skipped_files, s.failed_files, s.renamed_files), (0, 0, 1));
}

#[test]
fn real_run_asks_for_a_move_then_skips() {
    let c = config(true, "%Y-%m-%d_%H-%M-%S", None);
    let mut s = Statistics::new();
    let probe = ItemProbe::Extracted(Ok(utc(MARCH_FOURTH)));
    let target = process_item(&c, &b("/d/a.JPG"), &probe, &mut s);
    assert_eq!(target, Some(b("/d/2022-03-04_10-00-00.jpg")));
    assert_eq!(s, Statistics::new());
    s.record_move(true);
    let again = process_item(&c, &b("/d/2022-03-04_10-00-00.jpg"), &probe, &mut s);
    assert_eq!(again, None);
    assert_eq!((s.skipped_files, s.failed_files, s.renamed_files), (1, 0, 1));
}

#[test]
fn offset_override_shifts_the_clock() {
    let c = config(true, "%Y-%m-%d_%H-%M-%S%:z", Some("+05:00"));
    let mut s = Statistics::new();
    let probe = ItemProbe::Extracted(Ok(utc(MARCH_FOURTH)));
    let target = process_item(&c, &b("/d/a.jpg"), &probe, &mut s);
    assert_eq!(target, Some(b("/d/2022-03-04_15-00-00+05:00.jpg")));
}

#[test]
fn embedded_offset_is_kept_without_override() {
    let c = config(true, "%H-%M%:z", None);
    let mut s = Statistics::new();
    let t = Timestamp { seconds: MARCH_FOURTH, nanos: 0, offset_seconds: -9000 };
    let target = process_item(&c, &b("/d/a.jpg"), &ItemProbe::Extracted(Ok(t)), &mut s);
    assert_eq!(target, Some(b("/d/07-30-02:30.jpg")));
}

#[test]
fn one_unreadable_one_renamed() {
    let c = config(true, "%Y-%m-%d_%H-%M-%S", None);
    let entries = vec![
        GlobEntry::Unreadable { path: b("/d/b.jpg"), description: "permission denied".to_string() },
        matched("a.jpg", "/d/a.jpg"),
    ];
    let (paths, errors) = evaluate_files_from_glob_pattern(entries, false);
    assert_eq!(errors.len(), 1);
    assert_eq!(errors[0].path(), &b("/d/b.jpg"));
    let mut s = Statistics::new();
    s.record_discovery_errors(errors.len() as u64);
    assert_eq!(discovery_verdict(paths.len(), errors.len()), Discovery::Proceed);
    assert_eq!(paths, vec![b("/d/a.jpg")]);
    let probe = ItemProbe::Extracted(Ok(utc(MARCH_FOURTH)));
    let target = process_item(&c, &paths[0], &probe, &mut s);
    assert_eq!(target, Some(b("/d/2022-03-04_10-00-00.jpg")));
    s.record_move(true);
    assert_eq!((s.failed_files, s.skipped_files, s.renamed_files), (1, 0, 1));
    assert!(!s.is_success());
}

#[test]
fn only_directories_succeed() {
    let c = config(false, "%Y", None);
    let (paths, errors) =
        evaluate_files_from_glob_pattern(vec![matched("sub", "/d/sub"), matched("other", "/d/other")], false);
    assert!(errors.is_empty());
    let mut s = Statistics::new();
    for p in paths.iter() {
        assert_eq!(process_item(&c, p, &ItemProbe::NotAFile, &mut s), None);
    }
    assert_eq!(s, Statistics::new());
    assert!(s.is_success());
}
