use bestftp::command::{
    create_directory, create_file, delete_file, download_file, list_remote_files, local_failure,
    move_cleanup, move_file, move_result, read_binary_file, read_text_file, rename_file,
    search_files, stream_failure, tries_again, upload_file, write_text_file, CommandAction,
    Failure, MoveNext, Operation, RemoteCommand, Reply, Stage,
};
use bestftp::delete::DeleteAction;
use bestftp::models::ConnectionProtocol;

fn finish(action: CommandAction) -> Result<(), String> {
    match action {
        CommandAction::Finish(result) => result,
        other => panic!("not finished: {:?}", other),
    }
}

fn ftp(op: Operation) -> RemoteCommand {
    let (command, action) = RemoteCommand::begin(op, Some(ConnectionProtocol::FTP), "/x", String::new());
    assert!(matches!(action, CommandAction::EnsureConnected));
    command
}

fn err(text: &str) -> Result<(), String> {
    Err(text.to_string())
}

fn failed(text: &str) -> Reply {
    Reply::Failed(text.to_string())
}

#[test]
fn a_command_that_works_at_once() {
    let mut c = ftp(Operation::Rename);
    assert!(matches!(c.advance(Reply::Done, true), CommandAction::Run));
    assert_eq!(c.stage(), Stage::Running);
    assert_eq!(finish(c.advance(Reply::Done, true)), Ok(()));
    assert_eq!(c.stage(), Stage::Finished);
}

#[test]
fn a_connection_that_cannot_be_ensured_ends_the_command() {
    let mut c = ftp(Operation::List);
    assert_eq!(finish(c.advance(failed("Auto-reconnect failed: x"), false)), err("Auto-reconnect failed: x"));
}

#[test]
fn an_ensured_connection_that_nobody_holds() {
    let mut c = ftp(Operation::List);
    assert_eq!(finish(c.advance(Reply::Done, false)), err("Not connected"));
}

#[test]
fn the_second_try_succeeds() {
    let mut c = ftp(Operation::CreateDirectory);
    assert!(matches!(c.advance(Reply::Done, true), CommandAction::Run));
    assert!(matches!(c.advance(failed("broken pipe"), true), CommandAction::EnsureConnected));
    assert_eq!(c.stage(), Stage::EnsuringAgain);
    assert!(matches!(c.advance(Reply::Done, true), CommandAction::Run));
    assert_eq!(c.stage(), Stage::RunningAgain);
    assert_eq!(finish(c.advance(Reply::Done, true)), Ok(()));
}

#[test]
fn the_second_try_fails_and_its_error_is_told() {
    let cases = [
        (Operation::List, "Failed after reconnect: again"),
        (Operation::Delete, "Failed to delete after reconnect: again"),
        (Operation::Rename, "Failed to rename after reconnect: again"),
        (Operation::CreateDirectory, "Failed to create directory after reconnect: again"),
        (Operation::CreateFile, "Failed to create file after reconnect: again"),
        (Operation::Upload, "Failed to upload after reconnect: again"),
        (Operation::Download, "Failed to download after reconnect: again"),
    ];
    for (op, expected) in cases {
        let mut c = ftp(op);
        c.advance(Reply::Done, true);
        c.advance(failed("first"), true);
        c.advance(Reply::Done, true);
        assert_eq!(finish(c.advance(failed("again"), true)), err(expected));
    }
}

#[test]
fn no_second_try_without_a_connection() {
    let cases = [
        (Operation::List, "Failed to list directory via MLSD: first"),
        (Operation::Delete, "Failed to delete remote item: first"),
        (Operation::Rename, "Failed to rename remote item: first"),
        (Operation::CreateDirectory, "Failed to create remote directory: first"),
        (Operation::CreateFile, "Failed to create remote file: first"),
        (Operation::Upload, "Failed to upload: first"),
        (Operation::Download, "Failed to download: first"),
    ];
    for (op, expected) in cases {
        let mut c = ftp(op);
        c.advance(Reply::Done, true);
        c.advance(failed("first"), true);
        assert_eq!(finish(c.advance(failed("no way"), false)), err(expected));
        let mut d = ftp(op);
        d.advance(Reply::Done, true);
        d.advance(failed("first"), true);
        assert_eq!(finish(d.advance(Reply::Done, false)), err(expected));
    }
}

#[test]
fn some_commands_try_once_only() {
    let cases = [
        (Operation::ReadText, "FTP retr failed: e"),
        (Operation::WriteText, "e"),
        (Operation::ReadBinary, "e"),
        (Operation::Search, "e"),
        (Operation::MoveToLocal, "Failed to download file during move: e"),
        (Operation::MoveToRemote, "Failed to upload file during move: e"),
    ];
    for (op, expected) in cases {
        assert!(!tries_again(op));
        let mut c = ftp(op);
        c.advance(Reply::Done, true);
        assert_eq!(finish(c.advance(failed("e"), true)), err(expected));
    }
    assert!(tries_again(Operation::List));
    assert!(tries_again(Operation::Delete));
}

#[test]
fn sftp_opens_its_own_transport_and_acts_once() {
    let cases = [
        (Operation::List, "Failed to connect SFTP for listing: c", "Failed to list SFTP directory: e"),
        (Operation::Delete, "Failed to connect SFTP for deletion: c", "Failed to delete remote item: e"),
        (Operation::Rename, "Failed to connect SFTP for rename: c", "Failed to rename SFTP item: e"),
        (Operation::CreateDirectory, "Failed to connect SFTP for directory creation: c", "Failed to create SFTP directory: e"),
        (Operation::CreateFile, "Failed to connect SFTP for file creation: c", "Failed to create SFTP file: e"),
        (Operation::Upload, "Failed to connect SFTP for upload: c", "Failed to upload via SFTP: e"),
        (Operation::Download, "Failed to connect SFTP for download: c", "Failed to download via SFTP: e"),
        (Operation::ReadText, "SFTP connection failed: c", "SFTP read failed: e"),
        (Operation::WriteText, "SFTP connection failed: c", "SFTP write failed: e"),
        (Operation::ReadBinary, "SFTP connection failed: c", "SFTP read failed: e"),
        (Operation::Search, "c", "e"),
    ];
    for (op, connect_failure, run_failure) in cases {
        let begin = || {
            let (c, action) = RemoteCommand::begin(op, Some(ConnectionProtocol::SFTP), "/x", String::new());
            assert!(matches!(action, CommandAction::OpenSftp));
            assert_eq!(c.stage(), Stage::OpeningSftp);
            c
        };
        let mut a = begin();
        assert_eq!(finish(a.advance(failed("c"), false)), err(connect_failure));
        let mut b = begin();
        assert!(matches!(b.advance(Reply::Done, false), CommandAction::RunSftp));
        assert_eq!(finish(b.advance(failed("e"), false)), err(run_failure));
        let mut c = begin();
        c.advance(Reply::Done, false);
        assert_eq!(finish(c.advance(Reply::Done, false)), Ok(()));
    }
}

#[test]
fn a_failure_of_the_local_disk_is_never_tried_again() {
    for op in [Operation::Upload, Operation::Download, Operation::List, Operation::ReadText] {
        let mut c = ftp(op);
        assert!(matches!(c.advance(Reply::Done, true), CommandAction::Run));
        let action = c.advance(Reply::LocalFailed("disk full".to_string()), true);
        assert!(matches!(action, CommandAction::Finish(Err(_))));
        assert_eq!(c.stage(), Stage::Finished);
        assert_eq!(c.first_error(), "disk full");
    }
    let mut up = ftp(Operation::Upload);
    up.advance(Reply::Done, true);
    assert_eq!(
        finish(up.advance(Reply::LocalFailed("disk full".to_string()), true)),
        err("Failed to upload: disk full")
    );
    let mut again = ftp(Operation::Download);
    again.advance(Reply::Done, true);
    again.advance(failed("reset"), true);
    again.advance(Reply::Done, true);
    assert_eq!(
        finish(again.advance(Reply::LocalFailed("disk full".to_string()), true)),
        err("Failed to download after reconnect: disk full")
    );
    assert_eq!(again.first_error(), "reset");
}

#[test]
fn the_failure_of_a_walk_becomes_a_reply() {
    assert!(matches!(Failure::Remote("a".to_string()).into_reply(), Reply::Failed(ref e) if e == "a"));
    assert!(matches!(Failure::Local("b".to_string()).into_reply(), Reply::LocalFailed(ref e) if e == "b"));
    assert_eq!(stream_failure("eof"), "Failed to read stream: eof");
}

#[test]
fn a_finished_command_stays_finished() {
    let mut c = ftp(Operation::List);
    c.advance(Reply::Done, true);
    c.advance(Reply::Done, true);
    assert_eq!(finish(c.advance(Reply::Done, true)), err("No operation in progress"));
    assert_eq!(c.stage(), Stage::Finished);
}

#[test]
fn remote_paths_are_made_absolute() {
    let (c, _) = list_remote_files("ftp://example.org/pub/docs", Some(ConnectionProtocol::FTP));
    assert_eq!(c.path(), "/pub/docs");
    assert_eq!(c.operation(), Operation::List);
    let (c, _) = rename_file("host.name/a", "https://host.name/b", true, None).unwrap();
    assert_eq!(c.path(), "/a");
    assert_eq!(c.other_path(), "/b");
    let (c, _) = upload_file("C:/tmp/x.txt".to_string(), "srv.example/up/x.txt", None);
    assert_eq!(c.path(), "/up/x.txt");
    assert_eq!(c.other_path(), "C:/tmp/x.txt");
    let (c, _) = download_file("/data/x.bin", "local.dir/x.bin".to_string(), None);
    assert_eq!(c.path(), "/data/x.bin");
    assert_eq!(c.other_path(), "local.dir/x.bin");
}

#[test]
fn local_paths_need_no_plan() {
    assert!(delete_file("/tmp/x", false, None).is_none());
    assert!(rename_file("/tmp/x", "/tmp/y", false, None).is_none());
    assert!(create_directory("/tmp/x", false, None).is_none());
    assert!(create_file("/tmp/x", false, None).is_none());
    assert!(read_text_file("/tmp/x", false, None).is_none());
    assert!(write_text_file("/tmp/x", false, None).is_none());
    assert!(read_binary_file("/tmp/x", false, None).is_none());
    assert!(search_files("/tmp/x", "q".to_string(), false, true, None).is_none());
    assert_eq!(delete_file("/x", true, None).unwrap().0.operation(), Operation::Delete);
    assert_eq!(create_directory("/x", true, None).unwrap().0.operation(), Operation::CreateDirectory);
    assert_eq!(create_file("/x", true, None).unwrap().0.operation(), Operation::CreateFile);
    assert_eq!(read_text_file("/x", true, None).unwrap().0.operation(), Operation::ReadText);
    assert_eq!(write_text_file("/x", true, None).unwrap().0.operation(), Operation::WriteText);
    assert_eq!(read_binary_file("/x", true, None).unwrap().0.operation(), Operation::ReadBinary);
    let (search, _) = search_files("ftp://h/x", ".txt readme".to_string(), true, false, None).unwrap();
    assert_eq!(search.operation(), Operation::Search);
    assert_eq!(search.path(), "/x");
    assert_eq!(search.other_path(), ".txt readme");
}

#[test]
fn a_move_goes_over_ftp_in_either_direction() {
    let (c, action) = move_file("host.name/remote/a".to_string(), "/tmp/a".to_string(), true);
    assert!(matches!(action, CommandAction::EnsureConnected));
    assert_eq!(c.operation(), Operation::MoveToLocal);
    assert_eq!(c.path(), "/remote/a");
    assert_eq!(c.other_path(), "/tmp/a");
    let (c, _) = move_file("/tmp/a".to_string(), "host.name/remote/a".to_string(), false);
    assert_eq!(c.operation(), Operation::MoveToRemote);
    assert_eq!(c.path(), "/remote/a");
    assert_eq!(c.other_path(), "/tmp/a");
}

#[test]
fn a_delete_makes_a_try_each_time_it_acts() {
    for protocol in [ConnectionProtocol::FTP, ConnectionProtocol::SFTP] {
        let (mut c, _) = delete_file("host.name/old/", true, Some(protocol)).unwrap();
        assert!(c.begin_try().is_none());
        c.advance(Reply::Done, true);
        let (attempt, action) = c.begin_try().unwrap();
        assert_eq!(attempt.path(), "/old/");
        assert!(matches!(action, DeleteAction::List(ref p) if p == "/old/"));
    }
    let mut again = ftp(Operation::Delete);
    again.advance(Reply::Done, true);
    again.advance(failed("x"), true);
    assert!(again.begin_try().is_none());
    again.advance(Reply::Done, true);
    assert!(again.begin_try().is_some());
    again.advance(Reply::Done, true);
    assert!(again.begin_try().is_none());
    let mut other = ftp(Operation::Rename);
    other.advance(Reply::Done, true);
    assert!(other.begin_try().is_none());
}

#[test]
fn a_command_knows_whether_it_ended_well() {
    let mut c = ftp(Operation::List);
    assert!(!c.succeeded());
    c.advance(Reply::Done, true);
    assert!(!c.succeeded());
    c.advance(Reply::Done, true);
    assert!(c.succeeded());
    let mut d = ftp(Operation::List);
    d.advance(Reply::Done, true);
    d.advance(failed("x"), true);
    d.advance(failed("y"), false);
    assert_eq!(d.stage(), Stage::Finished);
    assert!(!d.succeeded());
    let mut e = ftp(Operation::Rename);
    e.advance(Reply::Done, true);
    e.advance(failed("x"), true);
    e.advance(Reply::Done, true);
    e.advance(Reply::Done, true);
    assert!(e.succeeded());
}

#[test]
fn a_failed_transfer_ends_a_move_and_keeps_the_source() {
    for to_local in [true, false] {
        match move_cleanup("/src/a".to_string(), to_local, err("Failed to upload file during move: x")) {
            MoveNext::Finish(ended) => assert_eq!(ended, err("Failed to upload file during move: x")),
            other => panic!("went on: {:?}", other),
        }
    }
}

#[test]
fn after_the_transfer_the_source_has_to_go() {
    match move_cleanup("host.name/remote/a/".to_string(), true, Ok(())) {
        MoveNext::RemoveRemote(command, action) => {
            assert_eq!(command.operation(), Operation::Delete);
            assert_eq!(command.path(), "/remote/a/");
            assert!(matches!(action, CommandAction::EnsureConnected));
        }
        other => panic!("no delete: {:?}", other),
    }
    match move_cleanup("/tmp/a".to_string(), false, Ok(())) {
        MoveNext::RemoveLocal(path) => assert_eq!(path, "/tmp/a"),
        other => panic!("no removal: {:?}", other),
    }
}

#[test]
fn a_source_that_stays_is_told() {
    assert_eq!(move_result(true, Ok(())), Ok(()));
    assert_eq!(move_result(false, Ok(())), Ok(()));
    assert_eq!(
        move_result(true, err("Failed to delete remote item: 550")),
        err("File downloaded but failed to delete remote: Failed to delete remote item: 550")
    );
    assert_eq!(
        move_result(false, err("denied")),
        err("File uploaded but failed to delete local: denied")
    );
}

#[test]
fn failures_on_the_local_side() {
    assert_eq!(local_failure(Operation::Delete, "denied"), "Failed to delete local item: denied");
    assert_eq!(local_failure(Operation::Rename, "denied"), "Failed to rename local item: denied");
    assert_eq!(local_failure(Operation::CreateDirectory, "x"), "Failed to create local directory: x");
    assert_eq!(local_failure(Operation::CreateFile, "x"), "Failed to create local file: x");
    assert_eq!(local_failure(Operation::List, "x"), "Failed to read local directory: x");
    assert_eq!(local_failure(Operation::ReadText, "x"), "x");
    assert_eq!(local_failure(Operation::MoveToRemote, "x"), "File uploaded but failed to delete local: x");
    assert_eq!(local_failure(Operation::MoveToLocal, "x"), "File downloaded but failed to delete remote: x");
}
