use bestftp::count::{count_remote_items, CountStep};
use bestftp::delete::{
    delete_remote_recursive, DeleteAction, DeleteEvent, DeleteProgress, DeleteWalk,
};
use bestftp::delete_try::begin_delete_try;
use bestftp::find::{search_remote, should_descend, SearchStep};
use bestftp::listing::list_from_mlsd;
use bestftp::models::FileItem;
use std::collections::BTreeMap;

/// A server in memory: directories with their listing lines, and files.
struct Server {
    dirs: BTreeMap<String, Vec<String>>,
    files: Vec<String>,
    calls: Vec<String>,
    fail_remove: Option<String>,
}

fn server() -> Server {
    let mut dirs = BTreeMap::new();
    dirs.insert(
        "/site".to_string(),
        vec![
            "type=cdir; .".to_string(),
            "type=pdir; ..".to_string(),
            "type=file;size=10; index.html".to_string(),
            "type=dir; img".to_string(),
            "type=file;size=20; style.css".to_string(),
            "type=dir; .cache".to_string(),
            "type=dir; empty".to_string(),
        ],
    );
    dirs.insert(
        "/site/img".to_string(),
        vec![
            "type=file;size=1; a.png".to_string(),
            "type=dir; raw".to_string(),
            "type=file;size=2; b.png".to_string(),
        ],
    );
    dirs.insert("/site/img/raw".to_string(), vec!["type=file;size=3; a.raw".to_string()]);
    dirs.insert("/site/.cache".to_string(), vec!["type=file;size=4; index.html.gz".to_string()]);
    dirs.insert("/site/empty".to_string(), vec![]);
    let files = vec![
        "/site/index.html",
        "/site/style.css",
        "/site/img/a.png",
        "/site/img/b.png",
        "/site/img/raw/a.raw",
        "/site/.cache/index.html.gz",
        "/lonely.txt",
    ]
    .into_iter()
    .map(String::from)
    .collect();
    Server { dirs, files, calls: Vec::new(), fail_remove: None }
}

impl Server {
    fn list(&mut self, path: &str) -> Option<Vec<FileItem>> {
        self.calls.push(format!("LIST {}", path));
        self.dirs.get(path).map(|lines| list_from_mlsd(path, lines))
    }

    fn remove_file(&mut self, path: &str) -> Result<(), String> {
        self.calls.push(format!("DELE {}", path));
        if self.fail_remove.as_deref() == Some(path) {
            return Err("550 denied".to_string());
        }
        match self.files.iter().position(|f| f == path) {
            Some(i) => {
                self.files.remove(i);
                self.forget(path);
                Ok(())
            }
            None => Err("550 no such file".to_string()),
        }
    }

    /// Takes the entry at `path` out of the listing of the directory that
    /// holds it.
    fn forget(&mut self, path: &str) {
        if let Some((parent, name)) = path.rsplit_once('/') {
            if let Some(lines) = self.dirs.get_mut(parent) {
                let ending = format!("; {}", name);
                lines.retain(|line| !line.ends_with(&ending));
            }
        }
    }

    fn remove_directory(&mut self, path: &str) -> Result<(), String> {
        self.calls.push(format!("RMD {}", path));
        if self.fail_remove.as_deref() == Some(path) {
            return Err("550 denied".to_string());
        }
        let prefix = format!("{}/", path);
        let in_use = self.files.iter().any(|f| f.starts_with(&prefix))
            || self.dirs.keys().any(|d| d.starts_with(&prefix));
        if in_use {
            return Err("550 not empty".to_string());
        }
        match self.dirs.remove(path) {
            Some(_) => {
                self.forget(path);
                Ok(())
            }
            None => Err("550 no such directory".to_string()),
        }
    }
}

fn count(server: &mut Server, path: &str) -> u64 {
    let (mut walk, mut step) = count_remote_items(path.to_string());
    loop {
        step = match step {
            CountStep::Done(n) => {
                assert_eq!(walk.count(), n);
                return n;
            }
            CountStep::List(p) => {
                let reply = server.list(&p);
                walk.listed(reply)
            }
        };
    }
}

fn delete(server: &mut Server, path: &str, total: u64) -> (Result<(), String>, Vec<DeleteProgress>, DeleteWalk) {
    let (mut walk, mut action) = delete_remote_recursive(path.to_string(), "site".to_string(), total);
    let mut events = Vec::new();
    loop {
        let event = match action {
            DeleteAction::Done => return (Ok(()), events, walk),
            DeleteAction::Failed(reason) => return (Err(reason), events, walk),
            DeleteAction::List(p) => DeleteEvent::Listed(server.list(&p)),
            DeleteAction::RemoveFile(p) => DeleteEvent::Removed(server.remove_file(&p)),
            DeleteAction::RemoveDirectory(p) => DeleteEvent::Removed(server.remove_directory(&p)),
        };
        let step = walk.advance(event);
        if let Some(progress) = step.progress {
            events.push(progress);
        }
        action = step.action;
    }
}

#[test]
fn a_tree_counts_itself_and_all_below() {
    let mut s = server();
    assert_eq!(count(&mut s, "/site/img/raw"), 2);
    assert_eq!(count(&mut s, "/site/img"), 1 + 1 + 2 + 1);
    assert_eq!(count(&mut s, "/site/empty"), 1);
    assert_eq!(count(&mut s, "/site/.cache"), 2);
    let whole = count(&mut s, "/site");
    assert_eq!(whole, 1 + 1 + count(&mut s, "/site/img") + 1 + count(&mut s, "/site/.cache") + count(&mut s, "/site/empty"));
    assert_eq!(whole, 11);
}

#[test]
fn what_cannot_be_listed_counts_as_one() {
    let mut s = server();
    assert_eq!(count(&mut s, "/lonely.txt"), 1);
    assert_eq!(count(&mut s, "/nowhere"), 1);
}

#[test]
fn counting_lists_each_directory_once_and_in_order() {
    let mut s = server();
    count(&mut s, "/site");
    assert_eq!(
        s.calls,
        vec!["LIST /site", "LIST /site/img", "LIST /site/img/raw", "LIST /site/.cache", "LIST /site/empty"]
    );
}

#[test]
fn deleting_tells_of_every_item_once() {
    let mut s = server();
    let total = count(&mut s, "/site");
    let (result, events, walk) = delete(&mut s, "/site", total);
    assert_eq!(result, Ok(()));
    assert_eq!(events.len() as u64, total);
    for (k, event) in events.iter().enumerate() {
        assert_eq!(event.deleted_items, k as u64 + 1);
        assert_eq!(event.total_items, total);
        assert_eq!(event.item_name, "site");
        assert_eq!(event.percent as u64, (k as u64 + 1) * 100 / total);
    }
    assert_eq!(events.last().unwrap().percent, 100);
    assert_eq!(walk.deleted_items(), total);
    assert_eq!(walk.total_items(), total);
    let names: Vec<&str> = events.iter().map(|e| e.current_item.as_str()).collect();
    assert_eq!(
        names,
        vec!["index.html", "a.png", "a.raw", "raw", "b.png", "img", "style.css", "index.html.gz", ".cache", "empty", "site"]
    );
    assert!(s.dirs.is_empty());
    assert_eq!(s.files, vec!["/lonely.txt"]);
}

#[test]
fn deleting_a_single_file() {
    let mut s = server();
    let total = count(&mut s, "/lonely.txt");
    s.calls.clear();
    let (result, events, _) = delete(&mut s, "/lonely.txt", total);
    assert_eq!(result, Ok(()));
    assert_eq!(s.calls, vec!["LIST /lonely.txt", "DELE /lonely.txt"]);
    assert_eq!(events.len(), 1);
    assert_eq!(events[0].current_item, "lonely.txt");
    assert_eq!(events[0].deleted_items, 1);
    assert_eq!(events[0].percent, 100);
    assert!(s.files.iter().all(|f| f != "/lonely.txt"));
}

#[test]
fn files_go_before_the_directory_that_holds_them() {
    let mut s = server();
    let (result, _, _) = delete(&mut s, "/site/img", 5);
    assert_eq!(result, Ok(()));
    assert_eq!(
        s.calls,
        vec![
            "LIST /site/img",
            "DELE /site/img/a.png",
            "LIST /site/img/raw",
            "DELE /site/img/raw/a.raw",
            "RMD /site/img/raw",
            "DELE /site/img/b.png",
            "RMD /site/img",
        ]
    );
}

#[test]
fn a_file_that_cannot_be_removed_ends_the_walk() {
    let mut s = server();
    s.fail_remove = Some("/site/img/b.png".to_string());
    let (result, events, walk) = delete(&mut s, "/site", 11);
    assert_eq!(result, Err("Failed to delete file: /site/img/b.png".to_string()));
    assert_eq!(events.len(), 4);
    assert_eq!(walk.deleted_items(), 4);
    assert!(s.files.contains(&"/site/style.css".to_string()));
    assert!(!s.files.contains(&"/site/index.html".to_string()));
    assert!(s.dirs.contains_key("/site/img"));
    assert!(!s.dirs.contains_key("/site/img/raw"));
}

#[test]
fn a_directory_that_cannot_be_removed_ends_the_walk() {
    let mut s = server();
    s.fail_remove = Some("/site/img/raw".to_string());
    let (result, events, _) = delete(&mut s, "/site", 11);
    assert_eq!(result, Err("Failed to remove directory /site/img/raw: 550 denied".to_string()));
    assert_eq!(events.len(), 3);
}

#[test]
fn a_path_that_is_neither_file_nor_directory() {
    let mut s = server();
    let (result, events, _) = delete(&mut s, "/nowhere", 1);
    assert_eq!(result, Err("Failed to delete file: /nowhere".to_string()));
    assert!(events.is_empty());
}

#[test]
fn a_reply_that_does_not_fit_ends_the_walk() {
    let (mut walk, _) = delete_remote_recursive("/site".to_string(), "site".to_string(), 3);
    let step = walk.advance(DeleteEvent::Removed(Ok(())));
    assert!(matches!(step.action, DeleteAction::Failed(ref r) if r == "Unexpected reply"));
    let after = walk.advance(DeleteEvent::Listed(None));
    assert!(matches!(after.action, DeleteAction::Done));
}

fn search(server: &mut Server, path: &str, query: &str) -> Result<Vec<String>, String> {
    let (mut walk, mut step) = search_remote(path.to_string(), query.to_string());
    loop {
        step = match step {
            SearchStep::Done(hits) => return Ok(hits.into_iter().map(|h| h.full_path).collect()),
            SearchStep::Failed(reason) => return Err(reason),
            SearchStep::List(p) => {
                let reply = server.list(&p).ok_or_else(|| format!("550 {}", p));
                walk.listed(p, reply)
            }
        };
    }
}

#[test]
fn a_search_finds_hits_in_the_order_of_the_walk() {
    let mut s = server();
    assert_eq!(
        search(&mut s, "/site", "a"),
        Ok(vec![
            "/site/img/a.png".to_string(),
            "/site/img/raw".to_string(),
            "/site/img/raw/a.raw".to_string(),
            "/site/.cache".to_string(),
        ])
    );
    assert_eq!(
        s.calls,
        vec!["LIST /site", "LIST /site/img", "LIST /site/img/raw", "LIST /site/empty"]
    );
}

#[test]
fn hidden_directories_are_searched_for_queries_with_a_dot() {
    let mut s = server();
    assert_eq!(search(&mut s, "/site", "index"), Ok(vec!["/site/index.html".to_string()]));
    assert_eq!(
        search(&mut s, "/site", ".gz|.css"),
        Ok(vec!["/site/style.css".to_string(), "/site/.cache/index.html.gz".to_string()])
    );
    assert!(should_descend("img", "x"));
    assert!(!should_descend(".cache", "x"));
    assert!(should_descend(".cache", ".x"));
    assert!(!should_descend(".", ".x"));
    assert!(!should_descend("..", ".x"));
    assert!(should_descend("", "x"));
}

#[test]
fn a_search_needs_its_first_directory() {
    let mut s = server();
    assert_eq!(search(&mut s, "/nowhere", "a"), Err("550 /nowhere".to_string()));
}

#[test]
fn a_search_passes_over_what_it_cannot_list() {
    let mut s = server();
    s.dirs.remove("/site/img/raw");
    assert_eq!(
        search(&mut s, "/site", "png|raw"),
        Ok(vec!["/site/img/a.png".to_string(), "/site/img/raw".to_string(), "/site/img/b.png".to_string()])
    );
}

#[test]
fn the_empty_query_finds_everything() {
    let mut s = server();
    let hits = search(&mut s, "/site", "").unwrap();
    assert_eq!(hits.len(), 9);
    assert_eq!(hits[0], "/site/index.html");
    assert_eq!(hits[8], "/site/empty");
}

fn delete_try(server: &mut Server, path: &str) -> (Result<(), String>, Vec<DeleteProgress>) {
    let (mut attempt, mut action) = begin_delete_try(path.to_string());
    assert_eq!(attempt.path(), path);
    let mut events = Vec::new();
    loop {
        let event = match action {
            DeleteAction::Done => return (Ok(()), events),
            DeleteAction::Failed(reason) => return (Err(reason), events),
            DeleteAction::List(p) => DeleteEvent::Listed(server.list(&p)),
            DeleteAction::RemoveFile(p) => DeleteEvent::Removed(server.remove_file(&p)),
            DeleteAction::RemoveDirectory(p) => DeleteEvent::Removed(server.remove_directory(&p)),
        };
        let step = attempt.advance(event);
        if let Some(progress) = step.progress {
            events.push(progress);
        }
        action = step.action;
    }
}

#[test]
fn a_try_counts_and_then_deletes() {
    let mut s = server();
    let (result, events) = delete_try(&mut s, "/site");
    assert_eq!(result, Ok(()));
    assert_eq!(events.len(), 11);
    for (k, event) in events.iter().enumerate() {
        assert_eq!(event.deleted_items, k as u64 + 1);
        assert_eq!(event.total_items, 11);
        assert_eq!(event.item_name, "site");
    }
    assert_eq!(events.last().unwrap().percent, 100);
    assert_eq!(
        &s.calls[..6],
        &["LIST /site", "LIST /site/img", "LIST /site/img/raw", "LIST /site/.cache", "LIST /site/empty", "LIST /site"]
    );
    assert!(s.dirs.is_empty());
}

#[test]
fn a_second_try_counts_what_the_first_has_left() {
    let mut s = server();
    s.fail_remove = Some("/site/img/b.png".to_string());
    let (first, events) = delete_try(&mut s, "/site");
    assert_eq!(first, Err("Failed to delete file: /site/img/b.png".to_string()));
    assert_eq!(events.len(), 4);
    assert_eq!(events.last().unwrap().total_items, 11);
    s.fail_remove = None;
    let (second, events) = delete_try(&mut s, "/site");
    assert_eq!(second, Ok(()));
    assert_eq!(events.len(), 7);
    for (k, event) in events.iter().enumerate() {
        assert_eq!(event.deleted_items, k as u64 + 1);
        assert_eq!(event.total_items, 7);
    }
    assert_eq!(events.last().unwrap().deleted_items, 7);
    assert_eq!(events.last().unwrap().percent, 100);
    assert!(s.dirs.is_empty());
    assert_eq!(s.files, vec!["/lonely.txt"]);
}

#[test]
fn a_try_on_a_single_file() {
    let mut s = server();
    let (result, events) = delete_try(&mut s, "/lonely.txt");
    assert_eq!(result, Ok(()));
    assert_eq!(s.calls, vec!["LIST /lonely.txt", "LIST /lonely.txt", "DELE /lonely.txt"]);
    assert_eq!(events.len(), 1);
    assert_eq!(events[0].total_items, 1);
    assert_eq!(events[0].percent, 100);
    assert_eq!(events[0].item_name, "lonely.txt");
}

#[test]
fn a_removal_told_to_a_counting_try_ends_it() {
    let (mut attempt, _) = begin_delete_try("/site".to_string());
    let step = attempt.advance(DeleteEvent::Removed(Ok(())));
    assert!(matches!(step.action, DeleteAction::Failed(ref r) if r == "Unexpected reply"));
    assert!(step.progress.is_none());
    let after = attempt.advance(DeleteEvent::Listed(None));
    assert!(matches!(after.action, DeleteAction::Done));
}
