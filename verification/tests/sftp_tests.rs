use bestftp::models::FileItem;
use bestftp::sftp::{
    fetch_check, is_protocol_error, list_check, list_failure, local_file_item, local_stamp_of,
    open_failure, read_failure, sftp_file_item, sftp_item_with_stamp, stamp_of,
};

fn item(name: &str, dir: bool, size: Option<u64>, mtime: Option<u64>, perm: Option<u32>) -> Option<FileItem> {
    sftp_file_item(name.to_string(), format!("/home/{}", name), dir, size, mtime, perm)
}

#[test]
fn an_entry_with_all_its_attributes() {
    let it = item("notes.txt", false, Some(1536), Some(1_700_000_000), Some(0o100644)).unwrap();
    assert_eq!(it.name, "notes.txt");
    assert_eq!(it.full_path, "/home/notes.txt");
    assert_eq!(it.size, 1536);
    assert_eq!(it.readable_size, "1.50 KB");
    assert_eq!(it.modified, Some(1_700_000_000));
    assert_eq!(it.readable_modified, "2023-11-14 22:13");
    assert_eq!(it.permissions, "100644");
    assert!(!it.is_directory);
}

#[test]
fn the_beginning_of_time() {
    let it = item("old", false, Some(1), Some(0), Some(0o7)).unwrap();
    assert_eq!(it.readable_modified, "1970-01-01 00:00");
    assert_eq!(it.modified, Some(0));
    assert_eq!(it.permissions, "7");
    assert_eq!(stamp_of(Some(86_399)), Some((86_399, "1970-01-01 23:59".to_string())));
    assert_eq!(stamp_of(Some(951_782_400)), Some((951_782_400, "2000-02-29 00:00".to_string())));
}

#[test]
fn a_directory_has_no_size() {
    let it = item("dir", true, Some(4096), None, Some(0o40755)).unwrap();
    assert_eq!(it.size, 0);
    assert_eq!(it.readable_size, "");
    assert_eq!(it.permissions, "40755");
    assert_eq!(it.modified, None);
    assert_eq!(it.readable_modified, "");
}

#[test]
fn missing_attributes_are_zero() {
    let it = item("bare", false, None, None, None).unwrap();
    assert_eq!(it.size, 0);
    assert_eq!(it.readable_size, "0 B");
    assert_eq!(it.permissions, "0");
}

#[test]
fn a_time_beyond_the_calendar_is_no_time() {
    assert_eq!(stamp_of(Some(u64::MAX)), None);
    assert_eq!(stamp_of(Some(i64::MAX as u64)), None);
    assert_eq!(stamp_of(None), None);
    let it = item("far", false, Some(1), Some(u64::MAX), None).unwrap();
    assert_eq!(it.modified, None);
    assert_eq!(it.readable_modified, "");
}

#[test]
fn entries_that_are_not_shown() {
    assert!(item("", false, None, None, None).is_none());
    assert!(item(".", true, None, None, None).is_none());
    assert!(item("..", true, None, None, None).is_none());
    assert!(item("...", true, None, None, None).is_some());
    assert!(item(".hidden", false, None, None, None).is_some());
}

#[test]
fn an_entry_from_a_given_stamp() {
    let it = sftp_item_with_stamp(
        "x".to_string(),
        "/x".to_string(),
        false,
        Some(3),
        Some((42, "some text".to_string())),
        Some(0o600),
    )
    .unwrap();
    assert_eq!(it.modified, Some(42));
    assert_eq!(it.readable_modified, "some text");
    assert_eq!(it.permissions, "600");
}

#[test]
fn a_local_entry_in_a_listing_and_as_a_hit() {
    let listed = local_file_item("a.txt".to_string(), "/tmp/a.txt".to_string(), false, 2048, Some(1_700_000_000), false);
    assert_eq!(listed.permissions, "-rw-rw-rw-");
    assert_eq!(listed.readable_modified, "2023-11-14 22:13");
    assert_eq!(listed.readable_size, "2.00 KB");
    assert_eq!(listed.modified, Some(1_700_000_000));
    let dir = local_file_item("d".to_string(), "/tmp/d".to_string(), true, 4096, None, false);
    assert_eq!(dir.permissions, "drwxrwxrwx");
    assert_eq!(dir.size, 0);
    assert_eq!(dir.readable_modified, "");
    let hit = local_file_item("a.txt".to_string(), "/tmp/a.txt".to_string(), false, 1, Some(1_700_000_000), true);
    assert_eq!(hit.permissions, "");
    assert_eq!(hit.readable_modified, "2023-11-14 22:13:20");
    assert_eq!(local_stamp_of(Some(-1), true), Some((-1, "1969-12-31 23:59:59".to_string())));
    assert_eq!(local_stamp_of(Some(i64::MIN), false), None);
}

#[test]
fn errors_that_tell_of_a_protocol_problem() {
    assert!(is_protocol_error("[-31] invalid syntax in reply"));
    assert!(is_protocol_error("SSH protocol error"));
    assert!(!is_protocol_error("Invalid Syntax"));
    assert!(!is_protocol_error("permission denied"));
    assert!(!is_protocol_error(""));
}

#[test]
fn the_wording_of_failures() {
    assert_eq!(list_failure("/d", "no access"), "Failed to list directory '/d': no access");
    assert_eq!(
        list_failure("/d", "protocol error 5"),
        "SFTP server protocol error: protocol error 5. The server may have compatibility issues. Try using FTP instead."
    );
    assert_eq!(open_failure("/f", "gone"), "Failed to open remote file '/f': gone");
    assert_eq!(
        open_failure("/f", "invalid syntax"),
        "SFTP server protocol error while opening file '/f': invalid syntax. The server may have compatibility issues."
    );
    assert_eq!(read_failure("eof"), "Failed to read from remote file: eof");
    assert_eq!(
        read_failure("a protocol error"),
        "SFTP server protocol error during file read: a protocol error. The server may have compatibility issues."
    );
}

#[test]
fn what_the_attributes_say_before_a_call() {
    assert_eq!(list_check("/d", Ok(true)), Ok(()));
    assert_eq!(list_check("/f", Ok(false)), Err("Path '/f' is not a directory".to_string()));
    assert_eq!(
        list_check("/x", Err("no such file".to_string())),
        Err("Failed to access path '/x': no such file".to_string())
    );
    assert_eq!(fetch_check("/f", Ok(false)), Ok(()));
    assert_eq!(fetch_check("/d", Ok(true)), Err("Path '/d' is a directory, not a file".to_string()));
    assert_eq!(
        fetch_check("/x", Err("no such file".to_string())),
        Err("Remote file '/x' does not exist or cannot be accessed: no such file".to_string())
    );
}
