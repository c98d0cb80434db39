//! The engine of a file manager for remote servers: everything that is
//! decided when files are listed, searched, moved and deleted over FTP or
//! SFTP, with none of the waiting.
//!
//! The engine never touches a socket or a disk. Where work has to be done
//! on the server or on the local machine, it says what is to be done next
//! and is told what came of it. What it decides is stated in contracts
//! over plain models of its values, and proved.
//!
//! * `path`, `listing`, `search`, `sizes`: paths, listing lines, queries
//!   and sizes as text.
//! * `connection`, `reconnect`: the state of the connection and the way
//!   back to a connection that was lost.
//! * `command`: one remote command from start to finish, with its second
//!   try after a reconnect.
//! * `count`, `delete`, `delete_try`, `download`, `upload`, `find`: the
//!   walks over a tree of files, each against the model of a tree in
//!   `tree`.
//! * `progress`: what an observer is told while bytes flow.
//! * `sftp`, `timefmt`, `recent`, `launch`: entries as an SFTP server and
//!   the local disk describe them, and what the desktop knows.

pub mod command;
pub mod connection;
pub mod count;
pub mod delete;
pub mod delete_try;
pub mod download;
pub mod find;
pub mod launch;
pub mod listing;
pub mod models;
pub mod path;
pub mod progress;
pub mod recent;
pub mod reconnect;
pub mod scan;
pub mod search;
pub mod sftp;
pub mod sizes;
pub mod text;
pub mod timefmt;
pub mod tree;
pub mod upload;
