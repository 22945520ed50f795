use decomposer::sample::Sample;
use decomposer::util::format_symphonia_time;
use decomposer::util::get_all_children;
use decomposer::util::tracks_from_paths;
use decomposer::util::DirEntry;
use decomposer::util::EntryKind;

fn entry(path: &str, kind: EntryKind) -> DirEntry {
    DirEntry { path: path.to_owned(), kind }
}

#[test]
fn walk_yields_files_and_descends_into_directories() {
    let mut walk = get_all_children("r".to_owned());

    let dir = walk.take_dir().expect("the root is waiting to be explored");
    assert_eq!(dir, "r");
    walk.note_entries(vec![
        entry("r/a.flac", EntryKind::File),
        entry("r/sub", EntryKind::Directory),
        entry("r/socket", EntryKind::Other),
        entry("r/b.flac", EntryKind::File),
    ]);

    // Files of one directory come back newest-first off the stack.
    assert_eq!(walk.next_file(), Some("r/b.flac".to_owned()));
    assert_eq!(walk.next_file(), Some("r/a.flac".to_owned()));
    assert_eq!(walk.next_file(), None);

    // The subdirectory is queued; other entries are not.
    let dir = walk.take_dir().expect("the subdirectory is waiting");
    assert_eq!(dir, "r/sub");
    walk.note_entries(vec![entry("r/sub/c.flac", EntryKind::File)]);
    assert_eq!(walk.next_file(), Some("r/sub/c.flac".to_owned()));
    assert_eq!(walk.next_file(), None);
    assert!(walk.take_dir().is_none());
}

#[test]
fn failed_listing_skips_the_directory() {
    let mut walk = get_all_children("r".to_owned());
    let _unreadable = walk.take_dir().unwrap();
    // The host could not list it and feeds nothing back; the walk ends.
    assert!(walk.take_dir().is_none());
    assert_eq!(walk.next_file(), None);
}

#[test]
fn tracks_wrap_paths_in_order() {
    let tracks = tracks_from_paths(vec!["x".to_owned(), "y".to_owned()]);
    assert_eq!(tracks.len(), 2);
    assert_eq!(tracks[0].path, "x");
    assert_eq!(tracks[1].path, "y");
}

#[test]
fn short_times_format_as_minutes_and_seconds() {
    assert_eq!(format_symphonia_time(0), "0:00");
    assert_eq!(format_symphonia_time(59), "0:59");
    assert_eq!(format_symphonia_time(60), "1:00");
    assert_eq!(format_symphonia_time(61), "1:01");
    assert_eq!(format_symphonia_time(3599), "59:59");
}

#[test]
fn hour_times_keep_the_total_minute_count() {
    // From an hour up the middle field counts minutes since the start of the
    // track, not minutes within the hour.
    assert_eq!(format_symphonia_time(3600), "1:60:00");
    assert_eq!(format_symphonia_time(3661), "1:61:01");
    assert_eq!(format_symphonia_time(7325), "2:122:05");
}

#[test]
fn integer_samples_scale_linearly_and_saturate() {
    assert_eq!(5i64.scaled(3), 15);
    assert_eq!((-4i64).scaled(2), -8);
    assert_eq!(7i64.scaled(0), 0);
    assert_eq!(<i64 as Sample>::silence(), 0);
    assert_eq!(i64::MAX.scaled(2), i64::MAX);
    assert_eq!(i64::MAX.scaled(-2), i64::MIN);
    assert_eq!((-1i64).scaled(i64::MIN), i64::MAX);
}
