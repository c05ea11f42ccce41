use logio::clock::Timestamp;
use logio::file::{
    archive_entry, archive_file_name, archive_path, archive_path_at, entry_kind,
    find_oldest_file_date, join_path, open_plan, plan_rotation, rotation_paths, scan_archive,
    ArchiveType, CopyPlan, CopyStep, DirFile, Directory, EntryKind, FileName, OpenPlan,
    ReadOutcome, RotationPlan, DEFAULT_ARCHIVE_DIR, DEFAULT_FILE_NAME, MAX_ARCHIVES,
    MAX_FILE_SIZE, MB,
};

fn at(seconds: i64) -> Timestamp {
    Timestamp { seconds, nanos: 0 }
}

fn file(name: &str, date: Timestamp) -> DirFile {
    archive_entry("logs/archives", name, date)
}

fn files_dated(dates: &[i64]) -> Vec<DirFile> {
    dates.iter().enumerate().map(|(i, date)| file(&format!("log {i}"), at(*date))).collect()
}

fn copy_with_reads(content: &[u8], known_size: Option<usize>, most: usize) -> (Vec<u8>, usize) {
    let mut plan = CopyPlan::start(known_size);
    let mut written = Vec::new();
    let mut pos = 0;
    let mut reads = 0;
    loop {
        let n = plan.buf_len.min(content.len() - pos).min(most);
        reads += 1;
        match plan.after_read(ReadOutcome::Read(n)) {
            CopyStep::Continue { write, next } => {
                written.extend_from_slice(&content[pos..pos + write]);
                pos += write;
                plan = next;
            }
            CopyStep::Finish { write } => {
                written.extend_from_slice(&content[pos..pos + write]);
                return (written, reads);
            }
        }
    }
}

#[test]
fn constants_are_those_of_the_format() {
    assert_eq!(MB, 1_048_576);
    assert_eq!(MAX_FILE_SIZE, 1_000_000_000);
    assert_eq!(MAX_ARCHIVES, 15);
}

#[test]
fn the_usual_layout_is_a_file_beside_its_archives() {
    let paths = rotation_paths(
        &FileName(DEFAULT_FILE_NAME),
        &Directory("logs"),
        DEFAULT_ARCHIVE_DIR,
    );
    assert_eq!(paths.current, "logs/log.txt");
    assert_eq!(paths.archive_dir, "logs/archives");
}

#[test]
fn without_a_choice_nothing_is_archived() {
    assert!(matches!(ArchiveType::default(), ArchiveType::Disabled));
    assert_eq!(Directory::default().0, "");
    assert_eq!(FileName::default().0, "");
    assert_eq!(Timestamp::default(), Timestamp { seconds: 0, nanos: 0 });
}

#[test]
fn entry_kind_sorts_names() {
    assert_eq!(entry_kind(".DS_Store"), EntryKind::Metadata);
    assert_eq!(entry_kind("log.DS_Store"), EntryKind::Metadata);
    assert_eq!(entry_kind("notes.txt"), EntryKind::Incompatible);
    assert_eq!(entry_kind(""), EntryKind::Incompatible);
    assert_eq!(entry_kind("LOG"), EntryKind::Incompatible);
    assert_eq!(entry_kind("log 01-02-24 03:04"), EntryKind::Archive);
    assert_eq!(entry_kind("catalog"), EntryKind::Archive);
}

#[test]
fn join_path_puts_a_slash_between() {
    assert_eq!(join_path("logs", "log.txt"), "logs/log.txt");
    assert_eq!(join_path("", "x"), "/x");
    assert_eq!(join_path("a/b", ""), "a/b/");
}

#[test]
fn rotation_paths_lie_in_the_directory() {
    let paths = rotation_paths(&FileName("log.txt"), &Directory("logs"), "archives");
    assert_eq!(paths.current, "logs/log.txt");
    assert_eq!(paths.archive_dir, "logs/archives");
}

#[test]
fn a_disabled_archive_opens_the_file_by_its_name() {
    let plan = open_plan(&FileName("log.txt"), &Directory("logs"), &ArchiveType::Disabled);
    assert!(matches!(plan, OpenPlan::Truncate(path) if path == "log.txt"));
}

#[test]
fn an_enabled_archive_rotates() {
    let plan = open_plan(&FileName("log.txt"), &Directory("logs"), &ArchiveType::Archive("old"));
    match plan {
        OpenPlan::Rotate(paths) => {
            assert_eq!(paths.current, "logs/log.txt");
            assert_eq!(paths.archive_dir, "logs/old");
        }
        OpenPlan::Truncate(_) => panic!("an enabled archive must rotate"),
    }
}

#[test]
fn archive_entry_holds_name_path_and_date() {
    let entry = archive_entry("logs/archives", "log 01-02-24 03:04", at(7));
    assert_eq!(entry.name, "log 01-02-24 03:04");
    assert_eq!(entry.path, "logs/archives/log 01-02-24 03:04");
    assert_eq!(entry.date_of_creation, at(7));
}

#[test]
fn scan_reads_the_date_from_the_name() {
    let names = vec!["log 01-02-24 03:04".to_string(), "log 12-31-99 23:59".to_string()];
    let scan = scan_archive("logs/archives", &names);
    assert_eq!(scan.files.len(), 2);
    assert_eq!(scan.files[0].date_of_creation, Timestamp { seconds: 1_704_164_640, nanos: 0 });
    assert_eq!(scan.files[0].name, "log 01-02-24 03:04");
    assert_eq!(scan.files[0].path, "logs/archives/log 01-02-24 03:04");
    assert_eq!(scan.files[1].date_of_creation, Timestamp { seconds: 946_684_740, nanos: 0 });
    assert!(scan.incompatible.is_empty());
}

#[test]
fn scan_sorts_out_what_is_no_archive() {
    let names = vec![
        ".DS_Store".to_string(),
        "notes.txt".to_string(),
        "log 01-02-24 03:04".to_string(),
        "readme".to_string(),
        "log 01-02-24 03:05".to_string(),
    ];
    let scan = scan_archive("arch", &names);
    let kept: Vec<&str> = scan.files.iter().map(|file| file.name.as_str()).collect();
    assert_eq!(kept, vec!["log 01-02-24 03:04", "log 01-02-24 03:05"]);
    assert_eq!(scan.incompatible, vec!["notes.txt", "readme"]);
}

#[test]
fn scan_of_an_empty_directory_finds_nothing() {
    let scan = scan_archive("arch", &Vec::new());
    assert!(scan.files.is_empty());
    assert!(scan.incompatible.is_empty());
}

#[test]
fn scan_dates_a_name_without_a_date_by_the_clock() {
    let names = vec!["log of some day".to_string(), "log 13-40-24 03:04".to_string()];
    let scan = scan_archive("arch", &names);
    assert_eq!(scan.files.len(), 2);
    // Later than the first day of 2020, which no date in these names is.
    assert!(scan.files[0].date_of_creation.seconds > 1_577_836_800);
    assert!(scan.files[1].date_of_creation.seconds > 1_577_836_800);
}

#[test]
fn before_orders_by_seconds_then_nanos() {
    let early = Timestamp { seconds: 5, nanos: 9 };
    let late = Timestamp { seconds: 6, nanos: 0 };
    let later = Timestamp { seconds: 6, nanos: 1 };
    assert!(early.before(&late));
    assert!(late.before(&later));
    assert!(!later.before(&late));
    assert!(!late.before(&late));
    assert!(Timestamp { seconds: -1, nanos: 0 }.before(&Timestamp { seconds: 0, nanos: 0 }));
}

#[test]
fn oldest_of_no_files_is_none() {
    assert_eq!(find_oldest_file_date(&[]), None);
}

#[test]
fn oldest_is_the_earliest_date() {
    let files = files_dated(&[50, 20, 90, 10, 30]);
    assert_eq!(find_oldest_file_date(&files), Some(3));
    let files = files_dated(&[5]);
    assert_eq!(find_oldest_file_date(&files), Some(0));
}

#[test]
fn oldest_is_the_first_of_equals() {
    let files = files_dated(&[50, 10, 90, 10, 10]);
    assert_eq!(find_oldest_file_date(&files), Some(1));
    let files = files_dated(&[7, 7, 7]);
    assert_eq!(find_oldest_file_date(&files), Some(0));
}

#[test]
fn oldest_looks_at_nanos() {
    let files = vec![
        file("log a", Timestamp { seconds: 10, nanos: 500 }),
        file("log b", Timestamp { seconds: 10, nanos: 499 }),
    ];
    assert_eq!(find_oldest_file_date(&files), Some(1));
}

#[test]
fn a_name_without_a_date_is_not_chosen_over_an_older_file() {
    let names = vec![
        "log without date".to_string(),
        "log 01-02-24 03:04".to_string(),
        "log 01-02-23 03:04".to_string(),
    ];
    let scan = scan_archive("arch", &names);
    assert_eq!(find_oldest_file_date(&scan.files), Some(2));
}

#[test]
fn sixteen_archives_lose_the_oldest_and_nothing_is_copied() {
    let mut dates: Vec<i64> = (100..116).collect();
    dates[9] = 1;
    let files = files_dated(&dates);
    assert_eq!(files.len(), 16);
    assert_eq!(plan_rotation(&files), RotationPlan::Prune { index: 9 });
}

#[test]
fn after_pruning_sixteen_fifteen_are_left() {
    let mut files = files_dated(&(0..16).rev().collect::<Vec<i64>>());
    match plan_rotation(&files) {
        RotationPlan::Prune { index } => {
            assert_eq!(index, 15);
            files.remove(index);
        }
        RotationPlan::Preserve => panic!("sixteen archives must be pruned"),
    }
    assert_eq!(files.len(), MAX_ARCHIVES);
    assert_eq!(plan_rotation(&files), RotationPlan::Preserve);
}

#[test]
fn up_to_fifteen_archives_are_kept() {
    assert_eq!(plan_rotation(&files_dated(&[])), RotationPlan::Preserve);
    assert_eq!(plan_rotation(&files_dated(&[3, 1, 2])), RotationPlan::Preserve);
    assert_eq!(plan_rotation(&files_dated(&(0..15).collect::<Vec<i64>>())), RotationPlan::Preserve);
}

#[test]
fn more_than_sixteen_archives_lose_one() {
    let files = files_dated(&(0..40).map(|i| 1000 - i).collect::<Vec<i64>>());
    assert_eq!(plan_rotation(&files), RotationPlan::Prune { index: 39 });
}

#[test]
fn archive_file_name_starts_with_log() {
    assert_eq!(archive_file_name("01-02-24 03:04"), "log 01-02-24 03:04");
    assert_eq!(archive_file_name(""), "log ");
}

#[test]
fn archive_path_at_names_the_file_by_the_date() {
    assert_eq!(
        archive_path_at("logs/archives", "01-02-24 03:04"),
        "logs/archives/log 01-02-24 03:04"
    );
}

#[test]
fn archive_path_spells_the_time_of_the_call() {
    let path = archive_path("logs/archives");
    let date = path.strip_prefix("logs/archives/log ").expect("the path of an archive file");
    let shape: String =
        date.chars().map(|c| if c.is_ascii_digit() { '0' } else { c }).collect();
    assert_eq!(shape, "00-00-00 00:00");
    assert_eq!(entry_kind(&format!("log {date}")), EntryKind::Archive);
}

#[test]
fn an_archive_made_now_is_read_back_as_dated() {
    let path = archive_path("arch");
    let name = path.strip_prefix("arch/").expect("a path in the directory").to_string();
    let scan = scan_archive("arch", &vec![name.clone(), "log 01-01-70 00:00".to_string()]);
    assert_eq!(scan.files.len(), 2);
    assert_eq!(scan.files[0].date_of_creation.nanos, 0);
    assert_eq!(scan.files[0].date_of_creation.seconds % 60, 0);
    assert_eq!(scan.files[1].date_of_creation, Timestamp { seconds: 0, nanos: 0 });
    assert_eq!(find_oldest_file_date(&scan.files), Some(1));
}

#[test]
fn a_copy_starts_with_a_mebibyte_at_most() {
    assert_eq!(CopyPlan::start(Some(3_000_000)), CopyPlan { buf_len: MB, file_size: 3_000_000 });
    assert_eq!(CopyPlan::start(Some(MB)), CopyPlan { buf_len: MB, file_size: MB });
    assert_eq!(CopyPlan::start(Some(10)), CopyPlan { buf_len: 10, file_size: 10 });
    assert_eq!(CopyPlan::start(Some(0)), CopyPlan { buf_len: 0, file_size: 0 });
}

#[test]
fn a_copy_of_unknown_size_assumes_a_gigabyte() {
    assert_eq!(CopyPlan::start(None), CopyPlan { buf_len: MB, file_size: MAX_FILE_SIZE });
}

#[test]
fn the_buffer_halves_down_to_one_byte() {
    let mut plan = CopyPlan::start(Some(10));
    let mut lens = vec![plan.buf_len];
    for _ in 0..5 {
        match plan.after_read(ReadOutcome::Read(1)) {
            CopyStep::Continue { write, next } => {
                assert_eq!(write, 1);
                assert_eq!(next.file_size, 10);
                plan = next;
                lens.push(plan.buf_len);
            }
            CopyStep::Finish { .. } => panic!("the copy is not at its end"),
        }
    }
    assert_eq!(lens, vec![10, 5, 2, 1, 1, 1]);
}

#[test]
fn the_end_of_the_file_ends_the_copy() {
    let plan = CopyPlan::start(Some(10));
    assert_eq!(plan.after_read(ReadOutcome::Read(0)), CopyStep::Finish { write: 0 });
}

#[test]
fn a_failed_read_ends_the_copy() {
    let plan = CopyPlan::start(Some(10));
    assert_eq!(plan.after_read(ReadOutcome::Failed), CopyStep::Finish { write: 0 });
}

#[test]
fn a_buffer_that_outgrew_the_file_ends_the_copy() {
    let plan = CopyPlan { buf_len: 4, file_size: 3 };
    assert_eq!(plan.after_read(ReadOutcome::Read(3)), CopyStep::Finish { write: 3 });
}

#[test]
fn a_copy_writes_the_file_byte_for_byte() {
    let content: Vec<u8> = (0..5000u32).map(|i| (i % 251) as u8).collect();
    for most in [1, 2, 7, 4096, usize::MAX] {
        let (written, _) = copy_with_reads(&content, Some(content.len()), most);
        assert_eq!(written, content);
        let (written, _) = copy_with_reads(&content, None, most);
        assert_eq!(written, content);
    }
}

#[test]
fn a_copy_of_an_empty_file_writes_nothing() {
    let (written, reads) = copy_with_reads(&[], Some(0), usize::MAX);
    assert!(written.is_empty());
    assert_eq!(reads, 1);
    let (written, _) = copy_with_reads(&[], None, usize::MAX);
    assert!(written.is_empty());
}

#[test]
fn short_reads_take_more_reads() {
    let (written, reads) = copy_with_reads(b"hello\n", Some(6), usize::MAX);
    assert_eq!(written, b"hello\n");
    // One read of six bytes, then the end of the file.
    assert_eq!(reads, 2);
    let (written, reads) = copy_with_reads(b"hello\n", Some(6), 2);
    assert_eq!(written, b"hello\n");
    // Reads of 2, 2, 1 and 1 bytes, then the end of the file.
    assert_eq!(reads, 5);
}
