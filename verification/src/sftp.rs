//! What is particular to SFTP: describing an entry from the attributes
//! that the server gives, and wording the failures of its calls.

use crate::listing::{described, is_entry_name};
use crate::models::{FileItem, FileItemView};
use crate::text::{
    chars_of, contains_chars, equals_str, has_infix, octal, push_octal, push_str_chars, string_of,
};
use crate::timefmt::{minute_pattern, second_pattern, utc_text, utc_text_of};
use vstd::prelude::*;

verus! {

/// The moment that a time stamp of the server names, with its text, if
/// the calendar can hold it.
pub open spec fn stamp_spec(mtime: Option<u64>) -> Option<(i64, Seq<char>)> {
    match mtime {
        Some(m) => if m <= i64::MAX {
            match utc_text_of(m as int, minute_pattern()) {
                Some(text) => Some((m as i64, text)),
                None => None,
            }
        } else {
            None
        },
        None => None,
    }
}

/// The entry that a listing shows for what an SFTP server tells of it,
/// given the moment of its last change and the text of that moment.
///
/// An entry whose name is empty, `.` or `..` is not shown. A missing size
/// is `0`; missing permission bits are `0`; the permissions are shown in
/// octal.
pub open spec fn sftp_item_spec(
    name: Seq<char>,
    full_path: Seq<char>,
    is_directory: bool,
    size: Option<u64>,
    stamp: Option<(i64, Seq<char>)>,
    perm: Option<u32>,
) -> Option<FileItemView> {
    if is_entry_name(name) {
        Some(
            described(
                name,
                full_path,
                is_directory,
                match size {
                    Some(n) => n,
                    None => 0,
                },
                match stamp {
                    Some((secs, _)) => Some(secs),
                    None => None,
                },
                match stamp {
                    Some((_, text)) => text,
                    None => Seq::empty(),
                },
                octal(
                    match perm {
                        Some(bits) => bits as nat,
                        None => 0,
                    },
                ),
            ),
        )
    } else {
        None
    }
}

/// The moment that a time stamp of the server names, with its text.
pub fn stamp_of(mtime: Option<u64>) -> (r: Option<(i64, String)>)
    ensures
        match r {
            Some((secs, text)) => stamp_spec(mtime) == Some((secs, text@)),
            None => stamp_spec(mtime) is None,
        },
{
    match mtime {
        Some(m) => {
            if m > i64::MAX as u64 {
                return None;
            }
            match utc_text(m as i64, "%Y-%m-%d %H:%M") {
                Some(text) => Some((m as i64, text)),
                None => None,
            }
        },
        None => None,
    }
}

/// The view of an optional stamp.
pub open spec fn stamp_view(stamp: Option<(i64, String)>) -> Option<(i64, Seq<char>)> {
    match stamp {
        Some((secs, text)) => Some((secs, text@)),
        None => None,
    }
}

/// The entry that a listing shows for what an SFTP server tells of it,
/// given the moment of its last change and the text of that moment.
pub fn sftp_item_with_stamp(
    name: String,
    full_path: String,
    is_directory: bool,
    size: Option<u64>,
    stamp: Option<(i64, String)>,
    perm: Option<u32>,
) -> (r: Option<FileItem>)
    ensures
        match r {
            Some(item) => sftp_item_spec(
                name@,
                full_path@,
                is_directory,
                size,
                stamp_view(stamp),
                perm,
            ) == Some(item@),
            None => sftp_item_spec(name@, full_path@, is_directory, size, stamp_view(stamp), perm)
                is None,
        },
{
    let n = chars_of(name.as_str());
    if n.len() == 0 || equals_str(&n, ".") || equals_str(&n, "..") {
        return None;
    }
    let size = match size {
        Some(n) => n,
        None => 0,
    };
    let bits: u32 = match perm {
        Some(b) => b,
        None => 0,
    };
    let mut permissions: Vec<char> = Vec::new();
    push_octal(&mut permissions, bits as u128);
    proof {
        assert(permissions@ =~= octal(bits as nat));
    }
    let (modified, readable_modified) = match stamp {
        Some((secs, text)) => (Some(secs), text),
        None => (None, String::new()),
    };
    Some(
        FileItem::describe(
            name,
            full_path,
            is_directory,
            size,
            modified,
            readable_modified,
            string_of(&permissions),
        ),
    )
}

/// The entry that a listing shows for what an SFTP server tells of it:
/// name, path, whether it is a directory, and the size, time of the last
/// change and permission bits where the server gave them.
pub fn sftp_file_item(
    name: String,
    full_path: String,
    is_directory: bool,
    size: Option<u64>,
    mtime: Option<u64>,
    perm: Option<u32>,
) -> (r: Option<FileItem>)
    ensures
        match r {
            Some(item) => sftp_item_spec(
                name@,
                full_path@,
                is_directory,
                size,
                stamp_spec(mtime),
                perm,
            ) == Some(item@),
            None => sftp_item_spec(name@, full_path@, is_directory, size, stamp_spec(mtime), perm)
                is None,
        },
{
    let stamp = stamp_of(mtime);
    sftp_item_with_stamp(name, full_path, is_directory, size, stamp, perm)
}

/// The moment `secs` with its text for a local entry, if the calendar can
/// hold it: with seconds for a hit of a search, without for a listing.
pub open spec fn local_stamp_spec(modified: Option<i64>, with_seconds: bool) -> Option<
    (i64, Seq<char>),
> {
    match modified {
        Some(secs) => match utc_text_of(
            secs as int,
            if with_seconds {
                second_pattern()
            } else {
                minute_pattern()
            },
        ) {
            Some(text) => Some((secs, text)),
            None => None,
        },
        None => None,
    }
}

/// The permissions shown for a local entry in a listing.
pub open spec fn local_permissions(is_directory: bool) -> Seq<char> {
    if is_directory {
        "drwxrwxrwx"@
    } else {
        "-rw-rw-rw-"@
    }
}

/// The entry shown for a local file or directory, given the moment of its
/// last change and the text of that moment. A hit of a search shows no
/// permissions.
pub open spec fn local_item_spec(
    name: Seq<char>,
    full_path: Seq<char>,
    is_directory: bool,
    size: u64,
    stamp: Option<(i64, Seq<char>)>,
    for_search: bool,
) -> FileItemView {
    described(
        name,
        full_path,
        is_directory,
        size,
        match stamp {
            Some((secs, _)) => Some(secs),
            None => None,
        },
        match stamp {
            Some((_, text)) => text,
            None => Seq::empty(),
        },
        if for_search {
            Seq::empty()
        } else {
            local_permissions(is_directory)
        },
    )
}

/// The moment `modified` with its text for a local entry.
pub fn local_stamp_of(modified: Option<i64>, with_seconds: bool) -> (r: Option<(i64, String)>)
    ensures
        stamp_view(r) == local_stamp_spec(modified, with_seconds),
{
    match modified {
        Some(secs) => {
            let text = if with_seconds {
                utc_text(secs, "%Y-%m-%d %H:%M:%S")
            } else {
                utc_text(secs, "%Y-%m-%d %H:%M")
            };
            match text {
                Some(text) => Some((secs, text)),
                None => None,
            }
        },
        None => None,
    }
}

/// The entry shown for a local file or directory, given the moment of its
/// last change and the text of that moment.
pub fn local_item_with_stamp(
    name: String,
    full_path: String,
    is_directory: bool,
    size: u64,
    stamp: Option<(i64, String)>,
    for_search: bool,
) -> (item: FileItem)
    ensures
        item@ == local_item_spec(
            name@,
            full_path@,
            is_directory,
            size,
            stamp_view(stamp),
            for_search,
        ),
{
    let permissions = if for_search {
        String::new()
    } else if is_directory {
        string_of(&chars_of("drwxrwxrwx"))
    } else {
        string_of(&chars_of("-rw-rw-rw-"))
    };
    let (modified, readable_modified) = match stamp {
        Some((secs, text)) => (Some(secs), text),
        None => (None, String::new()),
    };
    FileItem::describe(
        name,
        full_path,
        is_directory,
        size,
        modified,
        readable_modified,
        permissions,
    )
}

/// The entry shown for a local file or directory: in a listing with its
/// permissions and the minute of its last change, as a hit of a search
/// with the second.
pub fn local_file_item(
    name: String,
    full_path: String,
    is_directory: bool,
    size: u64,
    modified: Option<i64>,
    for_search: bool,
) -> (item: FileItem)
    ensures
        item@ == local_item_spec(
            name@,
            full_path@,
            is_directory,
            size,
            local_stamp_spec(modified, for_search),
            for_search,
        ),
{
    let stamp = local_stamp_of(modified, for_search);
    local_item_with_stamp(name, full_path, is_directory, size, stamp, for_search)
}

/// Whether an error text tells of a server that does not speak the
/// protocol as expected.
pub open spec fn is_protocol_error_spec(message: Seq<char>) -> bool {
    has_infix(message, "invalid syntax"@) || has_infix(message, "protocol error"@)
}

/// The reason given when a directory could not be read over SFTP.
pub open spec fn list_failure_spec(path: Seq<char>, message: Seq<char>) -> Seq<char> {
    if is_protocol_error_spec(message) {
        "SFTP server protocol error: "@ + message
            + ". The server may have compatibility issues. Try using FTP instead."@
    } else {
        "Failed to list directory '"@ + path + "': "@ + message
    }
}

/// The reason given when a remote file could not be opened over SFTP.
pub open spec fn open_failure_spec(path: Seq<char>, message: Seq<char>) -> Seq<char> {
    if is_protocol_error_spec(message) {
        "SFTP server protocol error while opening file '"@ + path + "': "@ + message
            + ". The server may have compatibility issues."@
    } else {
        "Failed to open remote file '"@ + path + "': "@ + message
    }
}

/// The reason given when reading a remote file failed over SFTP.
pub open spec fn read_failure_spec(message: Seq<char>) -> Seq<char> {
    if is_protocol_error_spec(message) {
        "SFTP server protocol error during file read: "@ + message
            + ". The server may have compatibility issues."@
    } else {
        "Failed to read from remote file: "@ + message
    }
}

/// What the attributes of a path say before it is listed: nothing against
/// it if it is a directory, and else the reason not to list it.
pub open spec fn list_check_spec(path: Seq<char>, attributes: Result<bool, Seq<char>>) -> Result<
    (),
    Seq<char>,
> {
    match attributes {
        Ok(is_directory) => if is_directory {
            Ok(())
        } else {
            Err("Path '"@ + path + "' is not a directory"@)
        },
        Err(e) => Err("Failed to access path '"@ + path + "': "@ + e),
    }
}

/// What the attributes of a path say before it is fetched: nothing
/// against it if it is no directory, and else the reason not to fetch it.
pub open spec fn fetch_check_spec(path: Seq<char>, attributes: Result<bool, Seq<char>>) -> Result<
    (),
    Seq<char>,
> {
    match attributes {
        Ok(is_directory) => if is_directory {
            Err("Path '"@ + path + "' is a directory, not a file"@)
        } else {
            Ok(())
        },
        Err(e) => Err("Remote file '"@ + path + "' does not exist or cannot be accessed: "@ + e),
    }
}

/// Whether an error text tells of a server that does not speak the
/// protocol as expected.
pub fn is_protocol_error(message: &str) -> (r: bool)
    ensures
        r == is_protocol_error_spec(message@),
{
    let m = chars_of(message);
    contains_chars(&m, &chars_of("invalid syntax")) || contains_chars(
        &m,
        &chars_of("protocol error"),
    )
}

/// The reason given when a directory could not be read over SFTP.
pub fn list_failure(path: &str, message: &str) -> (s: String)
    ensures
        s@ == list_failure_spec(path@, message@),
{
    let mut text: Vec<char> = Vec::new();
    if is_protocol_error(message) {
        push_str_chars(&mut text, "SFTP server protocol error: ");
        push_str_chars(&mut text, message);
        push_str_chars(
            &mut text,
            ". The server may have compatibility issues. Try using FTP instead.",
        );
    } else {
        push_str_chars(&mut text, "Failed to list directory '");
        push_str_chars(&mut text, path);
        push_str_chars(&mut text, "': ");
        push_str_chars(&mut text, message);
    }
    string_of(&text)
}

/// The reason given when a remote file could not be opened over SFTP.
pub fn open_failure(path: &str, message: &str) -> (s: String)
    ensures
        s@ == open_failure_spec(path@, message@),
{
    let mut text: Vec<char> = Vec::new();
    if is_protocol_error(message) {
        push_str_chars(&mut text, "SFTP server protocol error while opening file '");
        push_str_chars(&mut text, path);
        push_str_chars(&mut text, "': ");
        push_str_chars(&mut text, message);
        push_str_chars(&mut text, ". The server may have compatibility issues.");
    } else {
        push_str_chars(&mut text, "Failed to open remote file '");
        push_str_chars(&mut text, path);
        push_str_chars(&mut text, "': ");
        push_str_chars(&mut text, message);
    }
    string_of(&text)
}

/// The reason given when reading a remote file failed over SFTP.
pub fn read_failure(message: &str) -> (s: String)
    ensures
        s@ == read_failure_spec(message@),
{
    let mut text: Vec<char> = Vec::new();
    if is_protocol_error(message) {
        push_str_chars(&mut text, "SFTP server protocol error during file read: ");
        push_str_chars(&mut text, message);
        push_str_chars(&mut text, ". The server may have compatibility issues.");
    } else {
        push_str_chars(&mut text, "Failed to read from remote file: ");
        push_str_chars(&mut text, message);
    }
    string_of(&text)
}

/// What the attributes of a path say before it is listed. `attributes` is
/// `Ok` with whether the path is a directory, or `Err` with the error of
/// asking for them.
pub fn list_check(path: &str, attributes: Result<bool, String>) -> (r: Result<(), String>)
    ensures
        match r {
            Ok(()) => list_check_spec(
                path@,
                match attributes {
                    Ok(d) => Ok(d),
                    Err(e) => Err(e@),
                },
            ) == Ok::<(), Seq<char>>(()),
            Err(reason) => list_check_spec(
                path@,
                match attributes {
                    Ok(d) => Ok(d),
                    Err(e) => Err(e@),
                },
            ) == Err::<(), Seq<char>>(reason@),
        },
{
    let mut text: Vec<char> = Vec::new();
    match attributes {
        Ok(true) => Ok(()),
        Ok(false) => {
            push_str_chars(&mut text, "Path '");
            push_str_chars(&mut text, path);
            push_str_chars(&mut text, "' is not a directory");
            Err(string_of(&text))
        },
        Err(e) => {
            push_str_chars(&mut text, "Failed to access path '");
            push_str_chars(&mut text, path);
            push_str_chars(&mut text, "': ");
            push_str_chars(&mut text, e.as_str());
            Err(string_of(&text))
        },
    }
}

/// What the attributes of a path say before it is fetched.
pub fn fetch_check(path: &str, attributes: Result<bool, String>) -> (r: Result<(), String>)
    ensures
        match r {
            Ok(()) => fetch_check_spec(
                path@,
                match attributes {
                    Ok(d) => Ok(d),
                    Err(e) => Err(e@),
                },
            ) == Ok::<(), Seq<char>>(()),
            Err(reason) => fetch_check_spec(
                path@,
                match attributes {
                    Ok(d) => Ok(d),
                    Err(e) => Err(e@),
                },
            ) == Err::<(), Seq<char>>(reason@),
        },
{
    let mut text: Vec<char> = Vec::new();
    match attributes {
        Ok(false) => Ok(()),
        Ok(true) => {
            push_str_chars(&mut text, "Path '");
            push_str_chars(&mut text, path);
            push_str_chars(&mut text, "' is a directory, not a file");
            Err(string_of(&text))
        },
        Err(e) => {
            push_str_chars(&mut text, "Remote file '");
            push_str_chars(&mut text, path);
            push_str_chars(&mut text, "' does not exist or cannot be accessed: ");
            push_str_chars(&mut text, e.as_str());
            Err(string_of(&text))
        },
    }
}

} // verus!
