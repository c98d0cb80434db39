use bestftp::command::Failure;
use bestftp::download::{
    display_name, download_recursive, local_child, DownloadAction, DownloadEvent,
};
use bestftp::listing::list_from_mlsd;
use bestftp::models::FileItem;
use bestftp::sftp::local_file_item;
use bestftp::upload::{upload_recursive, UploadAction, UploadEvent};

fn remote_listing(path: &str) -> Option<Vec<FileItem>> {
    let lines: Vec<String> = match path {
        "/pub" => vec!["type=file;size=5; a.txt", "type=dir; sub", "type=file;size=7; z.txt"],
        "/pub/sub" => vec!["type=dir; deep", "type=file;size=9; b.txt"],
        "/pub/sub/deep" => vec![],
        _ => return None,
    }
    .into_iter()
    .map(String::from)
    .collect();
    Some(list_from_mlsd(path, &lines))
}

fn reason(failure: Failure) -> String {
    match failure {
        Failure::Remote(e) => format!("remote: {}", e),
        Failure::Local(e) => format!("local: {}", e),
    }
}

fn download(remote: &str, local: &str, fail_at: Option<&str>) -> (Result<(), String>, Vec<String>) {
    let (mut walk, mut action) = download_recursive(remote.to_string(), local.to_string());
    let mut log = Vec::new();
    loop {
        let event = match action {
            DownloadAction::Done => {
                log.push(format!("fetched {}", walk.completed()));
                return (Ok(()), log);
            }
            DownloadAction::Failed(failure) => {
                log.push(format!("fetched {}", walk.completed()));
                return (Err(reason(failure)), log);
            }
            DownloadAction::List(p) => {
                log.push(format!("list {}", p));
                DownloadEvent::Listed(remote_listing(&p))
            }
            DownloadAction::MakeLocalDirectory(p) => {
                log.push(format!("mkdir {}", p));
                DownloadEvent::Made
            }
            DownloadAction::Fetch { remote, local, name, size } => {
                log.push(format!("fetch {} -> {} as {} ({:?})", remote, local, name, size));
                if fail_at == Some(remote.as_str()) {
                    DownloadEvent::Fetched(Err(Failure::Remote("426 aborted".to_string())))
                } else {
                    DownloadEvent::Fetched(Ok(()))
                }
            }
        };
        action = walk.advance(event);
    }
}

#[test]
fn a_directory_comes_down_with_all_below_it() {
    let (result, log) = download("/pub", "/home/me/pub", None);
    assert_eq!(result, Ok(()));
    assert_eq!(
        log,
        vec![
            "list /pub",
            "mkdir /home/me/pub",
            "fetch /pub/a.txt -> /home/me/pub/a.txt as a.txt (Some(5))",
            "list /pub/sub",
            "mkdir /home/me/pub/sub",
            "list /pub/sub/deep",
            "mkdir /home/me/pub/sub/deep",
            "fetch /pub/sub/b.txt -> /home/me/pub/sub/b.txt as b.txt (Some(9))",
            "fetch /pub/z.txt -> /home/me/pub/z.txt as z.txt (Some(7))",
            "fetched 3",
        ]
    );
}

#[test]
fn what_cannot_be_listed_is_fetched_as_a_file() {
    let (result, log) = download("/pub/a.txt", "/tmp/a.txt", None);
    assert_eq!(result, Ok(()));
    assert_eq!(
        log,
        vec!["list /pub/a.txt", "fetch /pub/a.txt -> /tmp/a.txt as a.txt (None)", "fetched 1"]
    );
}

#[test]
fn a_fetch_that_fails_ends_the_download() {
    let (result, log) = download("/pub", "/t", Some("/pub/sub/b.txt"));
    assert_eq!(result, Err("remote: 426 aborted".to_string()));
    assert_eq!(log[log.len() - 2], "fetch /pub/sub/b.txt -> /t/sub/b.txt as b.txt (Some(9))");
    assert_eq!(log.last().unwrap(), "fetched 1");
    assert!(!log.iter().any(|l| l.contains("z.txt")));
}

#[test]
fn local_paths_are_joined_by_one_slash() {
    assert_eq!(local_child("/tmp", "a"), "/tmp/a");
    assert_eq!(local_child("/tmp/", "a"), "/tmp/a");
    assert_eq!(local_child("", "a"), "a");
    assert_eq!(local_child("/", "a"), "/a");
    assert_eq!(local_child("rel/dir", "x y"), "rel/dir/x y");
}

#[test]
fn the_name_shown_for_a_path() {
    assert_eq!(display_name("/a/b/c.txt"), "c.txt");
    assert_eq!(display_name("/a/b/"), "b");
    assert_eq!(display_name("c.txt"), "c.txt");
    assert_eq!(display_name("/"), "unknown");
    assert_eq!(display_name(""), "unknown");
    assert_eq!(display_name("/a/.."), "unknown");
    assert_eq!(display_name("///"), "unknown");
}

fn local_entries(path: &str) -> Result<Vec<FileItem>, String> {
    let entry = |name: &str, dir: bool| {
        local_file_item(name.to_string(), format!("{}/{}", path, name), dir, 1, None, false)
    };
    match path {
        "/src" => Ok(vec![entry("main.rs", false), entry("util", true), entry("lib.rs", false)]),
        "/src/util" => Ok(vec![entry("mod.rs", false), entry("locked", true)]),
        "/src/util/locked" => Err("Permission denied (os error 13)".to_string()),
        "/void" => Ok(vec![]),
        other => Err(format!("No such directory: {}", other)),
    }
}

fn upload(local: &str, remote: &str, is_dir: bool, fail_at: Option<&str>) -> (Result<(), String>, Vec<String>) {
    let (mut walk, mut action) =
        upload_recursive(local.to_string(), remote.to_string(), "root-name".to_string(), is_dir);
    let mut log = Vec::new();
    loop {
        let event = match action {
            UploadAction::Done => {
                log.push(format!("put {}", walk.completed()));
                return (Ok(()), log);
            }
            UploadAction::Failed(failure) => {
                log.push(format!("put {}", walk.completed()));
                return (Err(reason(failure)), log);
            }
            UploadAction::MakeRemoteDirectory(p) => {
                log.push(format!("mkd {}", p));
                UploadEvent::Made
            }
            UploadAction::ReadLocalDirectory(p) => {
                log.push(format!("read {}", p));
                UploadEvent::Entries(local_entries(&p))
            }
            UploadAction::Put { local, remote, name } => {
                log.push(format!("put {} -> {} as {}", local, remote, name));
                if fail_at == Some(remote.as_str()) {
                    UploadEvent::Put(Err(Failure::Remote("552 quota".to_string())))
                } else {
                    UploadEvent::Put(Ok(()))
                }
            }
        };
        action = walk.advance(event);
    }
}

#[test]
fn a_single_file_goes_up_as_it_is() {
    let (result, log) = upload("/src/main.rs", "/up/main.rs", false, None);
    assert_eq!(result, Ok(()));
    assert_eq!(log, vec!["put /src/main.rs -> /up/main.rs as root-name", "put 1"]);
}

#[test]
fn an_empty_directory_is_made_and_that_is_all() {
    let (result, log) = upload("/void", "/up/void/", true, None);
    assert_eq!(result, Ok(()));
    assert_eq!(log, vec!["mkd /up/void/", "read /void", "put 0"]);
}

#[test]
fn a_directory_goes_up_until_something_fails() {
    let (result, log) = upload("/src", "/up/", true, None);
    assert_eq!(result, Err("local: Permission denied (os error 13)".to_string()));
    assert_eq!(
        log,
        vec![
            "mkd /up/",
            "read /src",
            "put /src/main.rs -> /up/main.rs as main.rs",
            "mkd /up/util",
            "read /src/util",
            "put /src/util/mod.rs -> /up/util/mod.rs as mod.rs",
            "mkd /up/util/locked",
            "read /src/util/locked",
            "put 2",
        ]
    );
}

#[test]
fn a_put_that_fails_ends_the_upload() {
    let (result, log) = upload("/src", "/up", true, Some("/up/main.rs"));
    assert_eq!(result, Err("remote: 552 quota".to_string()));
    assert_eq!(log.len(), 4);
    assert_eq!(log.last().unwrap(), "put 0");
}

#[test]
fn a_reply_that_does_not_fit_ends_a_transfer() {
    let (mut up, _) = upload_recursive("/a".to_string(), "/b".to_string(), "a".to_string(), true);
    assert!(matches!(
        up.advance(UploadEvent::Put(Ok(()))),
        UploadAction::Failed(Failure::Local(ref r)) if r == "Unexpected reply"
    ));
    assert!(matches!(up.advance(UploadEvent::Made), UploadAction::Done));
    let (mut down, _) = download_recursive("/a".to_string(), "/b".to_string());
    assert!(matches!(
        down.advance(DownloadEvent::Made),
        DownloadAction::Failed(Failure::Local(ref r)) if r == "Unexpected reply"
    ));
    assert!(matches!(down.advance(DownloadEvent::Made), DownloadAction::Done));
}
