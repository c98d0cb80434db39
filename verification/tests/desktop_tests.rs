use bestftp::launch::{
    launch_plan, launch_plan_lowered, platform_of, run_executable, start_failure,
    started_message, Launch, Platform,
};
use bestftp::recent::{common_folders, find_first, recent_folder, recent_path_in_line};
use bestftp::text::chars_of;

fn plan(os: &str, path: &str, ext: &str, name: &str) -> Result<(String, Vec<String>), String> {
    launch_plan(os, path, ext, name).map(|l: Launch| (l.program, l.args))
}

fn ok(program: &str, args: &[&str]) -> Result<(String, Vec<String>), String> {
    Ok((program.to_string(), args.iter().map(|a| a.to_string()).collect()))
}

#[test]
fn systems_by_name() {
    assert_eq!(platform_of("windows"), Platform::Windows);
    assert_eq!(platform_of("linux"), Platform::Linux);
    assert_eq!(platform_of("macos"), Platform::MacOs);
    assert_eq!(platform_of("freebsd"), Platform::Other);
    assert_eq!(platform_of("Linux"), Platform::Other);
}

#[test]
fn web_pages_are_opened_by_the_system() {
    assert_eq!(plan("windows", "C:\\a.html", "html", "a.html"), ok("cmd", &["/C", "start", "", "C:\\a.html"]));
    assert_eq!(plan("linux", "/a.htm", "HTM", "a.htm"), ok("xdg-open", &["/a.htm"]));
    assert_eq!(plan("macos", "/a.html", "Html", "a.html"), ok("open", &["/a.html"]));
}

#[test]
fn what_runs_on_windows() {
    assert_eq!(plan("windows", "C:\\setup.exe", "EXE", "setup.exe"), ok("C:\\setup.exe", &[]));
    assert_eq!(plan("windows", "C:\\p.msi", "msi", "p.msi"), ok("msiexec", &["/i", "C:\\p.msi"]));
    assert_eq!(plan("windows", "C:\\go.bat", "bat", "go.bat"), ok("C:\\go.bat", &[]));
    assert_eq!(plan("windows", "C:\\go.cmd", "cmd", "go.cmd"), ok("C:\\go.cmd", &[]));
    assert_eq!(
        plan("windows", "C:\\x.sh", "sh", "x.sh"),
        Err("File type is not supported for execution".to_string())
    );
}

#[test]
fn what_runs_on_linux() {
    assert_eq!(plan("linux", "/x.sh", "sh", "x.sh"), ok("sh", &["/x.sh"]));
    assert_eq!(plan("linux", "/x.run", "run", "x.run"), ok("/x.run", &[]));
    assert_eq!(plan("linux", "/x.bin", "bin", "x.bin"), ok("/x.bin", &[]));
    assert_eq!(plan("linux", "/App.appimage", "appimage", "App.appimage"), ok("sh", &["/App.appimage"]));
    assert_eq!(
        plan("linux", "/App.AppImage", "AppImage", "App.AppImage"),
        Err("File type is not supported for execution".to_string())
    );
    assert_eq!(plan("linux", "/x.exe", "exe", "x.exe"), Err("File type is not supported for execution".to_string()));
    assert_eq!(plan("linux", "/x", "", "x"), Err("File type is not supported for execution".to_string()));
}

#[test]
fn what_runs_on_macos() {
    assert_eq!(plan("macos", "/A.app", "app", "A.app"), ok("open", &["/A.app"]));
    assert_eq!(plan("macos", "/p.pkg", "pkg", "p.pkg"), ok("installer", &["-pkg", "/p.pkg", "-target", "/"]));
    assert_eq!(plan("macos", "/go.command", "command", "go.command"), ok("/go.command", &[]));
    assert_eq!(plan("macos", "/x.apple", "apple", "x.apple"), ok("/x.apple", &[]));
    assert_eq!(plan("macos", "/x.txt", "txt", "x.txt"), Err("File type is not supported for execution".to_string()));
}

#[test]
fn nothing_runs_elsewhere() {
    assert_eq!(plan("freebsd", "/x.sh", "sh", "x.sh"), Err("File type is not supported for execution".to_string()));
    assert_eq!(plan("", "/x.html", "html", "x.html"), Err("File type is not supported for execution".to_string()));
}

#[test]
fn the_lowered_plan_takes_the_extension_as_it_is() {
    assert!(launch_plan_lowered(Platform::Windows, "a.exe", "exe", "a.exe").is_ok());
    assert!(launch_plan_lowered(Platform::Windows, "a.EXE", "EXE", "a.EXE").is_err());
}

#[test]
fn remote_files_are_not_started() {
    assert_eq!(run_executable(true), Some("Remote execution is not supported via FTP".to_string()));
    assert_eq!(run_executable(false), None);
    assert_eq!(started_message(Some("a.sh")), "Successfully started execution of a.sh");
    assert_eq!(started_message(None), "Successfully started execution of file");
    assert_eq!(start_failure("denied"), "Failed to execute file: denied");
}

#[test]
fn a_bookmark_names_its_path() {
    let line = r#"  <bookmark href="file:///home/me/My%20Docs/report%202024.pdf" added="2024-01-01T00:00:00Z" modified="x">"#;
    assert_eq!(recent_path_in_line(line), Some("/home/me/My Docs/report 2024.pdf".to_string()));
    let odd = r#"<bookmark href="file:///a%%20b%2" added="1">"#;
    assert_eq!(recent_path_in_line(odd), Some("/a% b%2".to_string()));
    let empty = r#"<bookmark href="file://" added="1">"#;
    assert_eq!(recent_path_in_line(empty), Some("".to_string()));
}

#[test]
fn lines_that_name_nothing() {
    assert_eq!(recent_path_in_line(""), None);
    assert_eq!(recent_path_in_line(r#"<bookmark href="file:///a">"#), None);
    assert_eq!(recent_path_in_line(r#"<bookmark href="http://a" added="1">"#), None);
    assert_eq!(recent_path_in_line(r#"<bookmark added="1">"#), None);
    assert_eq!(recent_path_in_line(r#"added="1 href="file:///unclosed"#), None);
}

#[test]
fn the_first_occurrence_counts() {
    let v = chars_of("abcabc");
    assert_eq!(find_first(&v, &chars_of("bc"), 0), 1);
    assert_eq!(find_first(&v, &chars_of("bc"), 2), 4);
    assert_eq!(find_first(&v, &chars_of("bc"), 5), 6);
    assert_eq!(find_first(&v, &chars_of("x"), 0), 6);
    assert_eq!(find_first(&v, &chars_of("abcabcd"), 0), 6);
    assert_eq!(find_first(&v, &chars_of(""), 3), 3);
}

#[test]
fn folders_offered_when_none_are_remembered() {
    assert_eq!(common_folders(), vec!["Downloads", "Documents", "Pictures", "Videos", "Desktop"]);
    let named = recent_folder(Some("docs".to_string()), "/home/me/docs".to_string());
    assert_eq!(named.name, "docs");
    assert_eq!(named.path, "/home/me/docs");
    let bare = recent_folder(None, "/".to_string());
    assert_eq!(bare.name, "/");
}
