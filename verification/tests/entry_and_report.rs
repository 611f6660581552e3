use stamp_tree::entry::{classify, Entry, EntryKind, RootError, RootKind};
use stamp_tree::report::{report, Line, Outcome, SkipReason, Stream};

#[test]
fn a_regular_file_can_be_a_root() {
    assert_eq!(classify(true, EntryKind::File), Ok(RootKind::File));
}

#[test]
fn a_directory_can_be_a_root() {
    assert_eq!(classify(true, EntryKind::Directory), Ok(RootKind::Directory));
}

#[test]
fn a_link_or_a_device_cannot_be_a_root() {
    assert_eq!(classify(true, EntryKind::Symlink), Err(RootError::UnsupportedType));
    assert_eq!(classify(true, EntryKind::Other), Err(RootError::UnsupportedType));
}

#[test]
fn what_does_not_exist_is_not_found_whatever_its_kind() {
    assert_eq!(classify(false, EntryKind::File), Err(RootError::NotFound));
    assert_eq!(classify(false, EntryKind::Directory), Err(RootError::NotFound));
    assert_eq!(classify(false, EntryKind::Symlink), Err(RootError::NotFound));
    assert_eq!(classify(false, EntryKind::Other), Err(RootError::NotFound));
}

#[test]
fn a_missing_root_is_reported_by_its_path() {
    assert_eq!(RootError::NotFound.message("/no/such/place"), "Path '/no/such/place' does not exist");
    assert_eq!(RootError::NotFound.message(""), "Path '' does not exist");
}

#[test]
fn an_unsupported_root_is_reported_without_its_path() {
    assert_eq!(
        RootError::UnsupportedType.message("/dev/null"),
        "Path is neither a file nor a directory"
    );
}

#[test]
fn entries_compare_by_path_and_kind() {
    let file = Entry { path: String::from("a"), kind: EntryKind::File };
    assert_eq!(file.clone(), file);
    assert_ne!(file, Entry { path: String::from("a"), kind: EntryKind::Directory });
    assert_ne!(file, Entry { path: String::from("b"), kind: EntryKind::File });
}

#[test]
fn a_success_is_one_line_on_the_output() {
    let outcome = Outcome::Applied { path: String::from("dir/a.txt") };
    assert_eq!(
        report(&outcome),
        Some(Line { stream: Stream::Output, text: String::from("Updated timestamp for: dir/a.txt") })
    );
}

#[test]
fn a_failure_is_one_line_on_the_error_stream() {
    let outcome = Outcome::Failed {
        path: String::from("dir/b.txt"),
        error: String::from("Permission denied (os error 13)"),
    };
    assert_eq!(
        report(&outcome),
        Some(Line {
            stream: Stream::Error,
            text: String::from("Failed to update dir/b.txt: Permission denied (os error 13)"),
        })
    );
}

#[test]
fn a_skipped_entry_has_no_line() {
    let outcome = Outcome::Skipped { path: String::from("dir/link"), reason: SkipReason::Symlink };
    assert_eq!(report(&outcome), None);
}

#[test]
fn empty_texts_leave_the_frame_of_the_line() {
    assert_eq!(
        report(&Outcome::Applied { path: String::new() }),
        Some(Line { stream: Stream::Output, text: String::from("Updated timestamp for: ") })
    );
    assert_eq!(
        report(&Outcome::Failed { path: String::new(), error: String::new() }),
        Some(Line { stream: Stream::Error, text: String::from("Failed to update : ") })
    );
}
