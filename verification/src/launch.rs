//! Starting a local file from the file list: which files may be started
//! on which system, and with which program.

use crate::listing::texts_of;
use crate::search::{lowercase_of, to_lowercase};
use crate::text::{chars_of, contains_chars, equals_str, has_infix, push_str_chars, string_of};
use vstd::prelude::*;

verus! {

/// The systems that are told apart.
#[derive(Clone, Copy, Debug, PartialEq, Eq, Structural)]
pub enum Platform {
    Windows,
    Linux,
    MacOs,
    Other,
}

/// The system that a name of the kind `std::env::consts::OS` names.
pub open spec fn platform_spec(os: Seq<char>) -> Platform {
    if os == "windows"@ {
        Platform::Windows
    } else if os == "linux"@ {
        Platform::Linux
    } else if os == "macos"@ {
        Platform::MacOs
    } else {
        Platform::Other
    }
}

/// Whether the extension `ext`, in small letters, is that of a web page.
pub open spec fn is_page(ext: Seq<char>) -> bool {
    ext == "html"@ || ext == "htm"@
}

/// Whether a file of the extension `ext`, in small letters, and of the
/// name `name` may be started on the given system.
pub open spec fn startable(platform: Platform, ext: Seq<char>, name: Seq<char>) -> bool {
    match platform {
        Platform::Windows => ext == "exe"@ || ext == "msi"@ || ext == "bat"@ || ext == "cmd"@
            || is_page(ext),
        Platform::Linux => ext == "sh"@ || ext == "run"@ || ext == "bin"@ || is_page(ext)
            || has_infix(name, ".appimage"@),
        Platform::MacOs => ext == "app"@ || ext == "command"@ || ext == "pkg"@ || is_page(ext)
            || has_infix(name, ".app"@),
        Platform::Other => false,
    }
}

/// A program to start, with its arguments.
#[derive(Debug)]
pub struct Launch {
    pub program: String,
    pub args: Vec<String>,
}

/// A `Launch` with its texts as sequences of characters.
pub struct LaunchView {
    pub program: Seq<char>,
    pub args: Seq<Seq<char>>,
}

impl View for Launch {
    type V = LaunchView;

    open spec fn view(&self) -> LaunchView {
        LaunchView { program: self.program@, args: texts_of(self.args@) }
    }
}

/// The reason given for a file that may not be started.
pub open spec fn unsupported_text() -> Seq<char> {
    "File type is not supported for execution"@
}

/// How to start the file at `path`, which has the extension `ext`, in
/// small letters, and the name `name`.
///
/// A file that may not be started gives the reason; so does every file on
/// a system that is not known. A web page is opened with what the system
/// opens things with. On Windows an installer package goes to the
/// installer and any other file is run. On Linux a shell script or an
/// application image goes to the shell and any other file is run. On
/// macOS an application is opened, a package goes to the installer, and
/// any other file is run.
pub open spec fn launch_spec(platform: Platform, path: Seq<char>, ext: Seq<char>, name: Seq<char>)
    -> Result<LaunchView, Seq<char>> {
    if !startable(platform, ext, name) {
        Err(unsupported_text())
    } else if is_page(ext) {
        match platform {
            Platform::Windows => Ok(
                LaunchView { program: "cmd"@, args: seq!["/C"@, "start"@, ""@, path] },
            ),
            Platform::Linux => Ok(LaunchView { program: "xdg-open"@, args: seq![path] }),
            _ => Ok(LaunchView { program: "open"@, args: seq![path] }),
        }
    } else {
        match platform {
            Platform::Windows => if ext == "msi"@ {
                Ok(LaunchView { program: "msiexec"@, args: seq!["/i"@, path] })
            } else {
                Ok(LaunchView { program: path, args: Seq::empty() })
            },
            Platform::Linux => if ext == "sh"@ || has_infix(name, ".appimage"@) {
                Ok(LaunchView { program: "sh"@, args: seq![path] })
            } else {
                Ok(LaunchView { program: path, args: Seq::empty() })
            },
            _ => if ext == "app"@ {
                Ok(LaunchView { program: "open"@, args: seq![path] })
            } else if ext == "pkg"@ {
                Ok(
                    LaunchView {
                        program: "installer"@,
                        args: seq!["-pkg"@, path, "-target"@, "/"@],
                    },
                )
            } else {
                Ok(LaunchView { program: path, args: Seq::empty() })
            },
        }
    }
}

/// The system that `os` names.
pub fn platform_of(os: &str) -> (p: Platform)
    ensures
        p == platform_spec(os@),
{
    let v = chars_of(os);
    if equals_str(&v, "windows") {
        Platform::Windows
    } else if equals_str(&v, "linux") {
        Platform::Linux
    } else if equals_str(&v, "macos") {
        Platform::MacOs
    } else {
        Platform::Other
    }
}

/// A program with the given arguments.
fn launch_of(program: &str, args: Vec<String>) -> (l: Launch)
    ensures
        l@ == (LaunchView { program: program@, args: texts_of(args@) }),
{
    Launch { program: string_of(&chars_of(program)), args }
}

/// A text of its own from a borrowed one.
fn owned(s: &str) -> (r: String)
    ensures
        r@ == s@,
{
    string_of(&chars_of(s))
}

/// How to start the file at `path`, which has the extension `ext`,
/// already in small letters, and the name `name`.
pub fn launch_plan_lowered(platform: Platform, path: &str, ext: &str, name: &str) -> (r: Result<
    Launch,
    String,
>)
    ensures
        match r {
            Ok(l) => launch_spec(platform, path@, ext@, name@) == Ok::<LaunchView, Seq<char>>(l@),
            Err(e) => launch_spec(platform, path@, ext@, name@) == Err::<LaunchView, Seq<char>>(
                e@,
            ),
        },
{
    let e = chars_of(ext);
    let n = chars_of(name);
    let page = equals_str(&e, "html") || equals_str(&e, "htm");
    let image = contains_chars(&n, &chars_of(".appimage"));
    let bundle = contains_chars(&n, &chars_of(".app"));
    let may = match platform {
        Platform::Windows => equals_str(&e, "exe") || equals_str(&e, "msi") || equals_str(
            &e,
            "bat",
        ) || equals_str(&e, "cmd") || page,
        Platform::Linux => equals_str(&e, "sh") || equals_str(&e, "run") || equals_str(&e, "bin")
            || page || image,
        Platform::MacOs => equals_str(&e, "app") || equals_str(&e, "command") || equals_str(
            &e,
            "pkg",
        ) || page || bundle,
        Platform::Other => false,
    };
    if !may {
        return Err(owned("File type is not supported for execution"));
    }
    let mut args: Vec<String> = Vec::new();
    if page {
        match platform {
            Platform::Windows => {
                args.push(owned("/C"));
                args.push(owned("start"));
                args.push(owned(""));
                args.push(owned(path));
                proof {
                    assert(texts_of(args@) =~= seq!["/C"@, "start"@, ""@, path@]);
                }
                Ok(launch_of("cmd", args))
            },
            Platform::Linux => {
                args.push(owned(path));
                proof {
                    assert(texts_of(args@) =~= seq![path@]);
                }
                Ok(launch_of("xdg-open", args))
            },
            _ => {
                args.push(owned(path));
                proof {
                    assert(texts_of(args@) =~= seq![path@]);
                }
                Ok(launch_of("open", args))
            },
        }
    } else {
        let through: u8 = match platform {
            Platform::Windows => if equals_str(&e, "msi") {
                1
            } else {
                0
            },
            Platform::Linux => if equals_str(&e, "sh") || image {
                2
            } else {
                0
            },
            _ => if equals_str(&e, "app") {
                3
            } else if equals_str(&e, "pkg") {
                4
            } else {
                0
            },
        };
        if through == 1 {
            args.push(owned("/i"));
            args.push(owned(path));
            proof {
                assert(texts_of(args@) =~= seq!["/i"@, path@]);
            }
            Ok(launch_of("msiexec", args))
        } else if through == 2 {
            args.push(owned(path));
            proof {
                assert(texts_of(args@) =~= seq![path@]);
            }
            Ok(launch_of("sh", args))
        } else if through == 3 {
            args.push(owned(path));
            proof {
                assert(texts_of(args@) =~= seq![path@]);
            }
            Ok(launch_of("open", args))
        } else if through == 4 {
            args.push(owned("-pkg"));
            args.push(owned(path));
            args.push(owned("-target"));
            args.push(owned("/"));
            proof {
                assert(texts_of(args@) =~= seq!["-pkg"@, path@, "-target"@, "/"@]);
            }
            Ok(launch_of("installer", args))
        } else {
            proof {
                assert(texts_of(args@) =~= Seq::<Seq<char>>::empty());
            }
            Ok(launch_of(path, args))
        }
    }
}

/// How to start the local file at `path` on the system `os`, given its
/// extension (empty when it has none) and its name; the extension counts
/// in small letters.
pub fn launch_plan(os: &str, path: &str, extension: &str, name: &str) -> (r: Result<Launch, String>)
    ensures
        match r {
            Ok(l) => launch_spec(platform_spec(os@), path@, lowercase_of(extension@), name@)
                == Ok::<LaunchView, Seq<char>>(l@),
            Err(e) => launch_spec(platform_spec(os@), path@, lowercase_of(extension@), name@)
                == Err::<LaunchView, Seq<char>>(e@),
        },
{
    let ext = to_lowercase(extension);
    launch_plan_lowered(platform_of(os), path, ext.as_str(), name)
}

/// What `run_executable` tells of a remote file, which cannot be started:
/// the reason; of a local file nothing.
pub fn run_executable(is_remote: bool) -> (r: Option<String>)
    ensures
        match r {
            Some(reason) => is_remote && reason@ == "Remote execution is not supported via FTP"@,
            None => !is_remote,
        },
{
    if is_remote {
        Some(owned("Remote execution is not supported via FTP"))
    } else {
        None
    }
}

/// What the user is told once the file of the name `name` was started;
/// a file without a name is called `file`.
pub fn started_message(name: Option<&str>) -> (s: String)
    ensures
        s@ == "Successfully started execution of "@ + match name {
            Some(n) => n@,
            None => "file"@,
        },
{
    let mut text: Vec<char> = Vec::new();
    push_str_chars(&mut text, "Successfully started execution of ");
    match name {
        Some(n) => push_str_chars(&mut text, n),
        None => push_str_chars(&mut text, "file"),
    }
    string_of(&text)
}

/// What the user is told when the file could not be started.
pub fn start_failure(error: &str) -> (s: String)
    ensures
        s@ == "Failed to execute file: "@ + error@,
{
    let mut text: Vec<char> = Vec::new();
    push_str_chars(&mut text, "Failed to execute file: ");
    push_str_chars(&mut text, error);
    string_of(&text)
}

} // verus!
