//! The values that travel between the engine and whoever drives it.

use vstd::prelude::*;

verus! {

/// The wire protocol behind a connection.
#[derive(Copy, Debug, PartialEq, Eq, Structural)]
pub enum ConnectionProtocol {
    FTP,
    SFTP,
}

impl Clone for ConnectionProtocol {
    fn clone(&self) -> (r: Self)
        ensures
            r == *self,
    {
        *self
    }
}

/// Where and as whom to connect. Kept for the lifetime of a session so that
/// a dropped connection can be opened again.
#[derive(Debug)]
pub struct ConnectionInfo {
    pub host: String,
    pub port: u16,
    pub username: String,
    pub password: String,
    pub protocol: ConnectionProtocol,
}

/// A `ConnectionInfo` with its texts as sequences of characters.
pub struct ConnectionInfoView {
    pub host: Seq<char>,
    pub port: u16,
    pub username: Seq<char>,
    pub password: Seq<char>,
    pub protocol: ConnectionProtocol,
}

impl View for ConnectionInfo {
    type V = ConnectionInfoView;

    open spec fn view(&self) -> ConnectionInfoView {
        ConnectionInfoView {
            host: self.host@,
            port: self.port,
            username: self.username@,
            password: self.password@,
            protocol: self.protocol,
        }
    }
}

impl Clone for ConnectionInfo {
    fn clone(&self) -> (r: Self)
        ensures
            r == *self,
    {
        ConnectionInfo {
            host: self.host.clone(),
            port: self.port,
            username: self.username.clone(),
            password: self.password.clone(),
            protocol: self.protocol,
        }
    }
}

/// One entry of a directory listing.
#[derive(Debug)]
pub struct FileItem {
    pub name: String,
    pub full_path: String,
    /// Size in bytes; `0` for a directory.
    pub size: u64,
    /// Time of the last change in seconds since 1970-01-01 00:00 UTC.
    pub modified: Option<i64>,
    pub is_directory: bool,
    pub readable_size: String,
    pub readable_modified: String,
    pub permissions: String,
}

/// A `FileItem` with its texts as sequences of characters.
pub struct FileItemView {
    pub name: Seq<char>,
    pub full_path: Seq<char>,
    pub size: u64,
    pub modified: Option<i64>,
    pub is_directory: bool,
    pub readable_size: Seq<char>,
    pub readable_modified: Seq<char>,
    pub permissions: Seq<char>,
}

impl View for FileItem {
    type V = FileItemView;

    open spec fn view(&self) -> FileItemView {
        FileItemView {
            name: self.name@,
            full_path: self.full_path@,
            size: self.size,
            modified: self.modified,
            is_directory: self.is_directory,
            readable_size: self.readable_size@,
            readable_modified: self.readable_modified@,
            permissions: self.permissions@,
        }
    }
}

impl Clone for FileItem {
    fn clone(&self) -> (r: Self)
        ensures
            r == *self,
    {
        FileItem {
            name: self.name.clone(),
            full_path: self.full_path.clone(),
            size: self.size,
            modified: self.modified,
            is_directory: self.is_directory,
            readable_size: self.readable_size.clone(),
            readable_modified: self.readable_modified.clone(),
            permissions: self.permissions.clone(),
        }
    }
}

/// A folder that the operating system lists as recently used.
#[derive(Debug)]
pub struct RecentFolder {
    pub name: String,
    pub path: String,
}

impl Clone for RecentFolder {
    fn clone(&self) -> (r: Self)
        ensures
            r == *self,
    {
        RecentFolder { name: self.name.clone(), path: self.path.clone() }
    }
}

/// What a command hands back to the user interface: either data, or the
/// reason of the failure.
#[derive(Debug)]
pub struct CommandResult<T> {
    pub success: bool,
    pub data: Option<T>,
    pub error: Option<String>,
}

/// The outcome of a command that hands back a text, with its texts as
/// sequences of characters: `Ok` with the text, or `Err` with the reason.
pub open spec fn text_outcome(r: CommandResult<String>) -> Result<Seq<char>, Seq<char>> {
    match (r.success, r.data, r.error) {
        (true, Some(text), _) => Ok(text@),
        (true, None, _) => Ok(Seq::empty()),
        (false, _, Some(reason)) => Err(reason@),
        (false, _, None) => Err(Seq::empty()),
    }
}

impl<T> CommandResult<T> {
    /// A success that carries `data`.
    pub fn ok(data: T) -> (r: Self)
        ensures
            r.success,
            r.data == Some(data),
            r.error is None,
    {
        CommandResult { success: true, data: Some(data), error: None }
    }

    /// A success that carries nothing.
    pub fn done() -> (r: Self)
        ensures
            r.success,
            r.data is None,
            r.error is None,
    {
        CommandResult { success: true, data: None, error: None }
    }

    /// A failure with its reason.
    pub fn fail(message: String) -> (r: Self)
        ensures
            !r.success,
            r.data is None,
            r.error == Some(message),
    {
        CommandResult { success: false, data: None, error: Some(message) }
    }
}

} // verus!
