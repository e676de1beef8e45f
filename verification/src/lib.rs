//! Verified core of the rssh SFTP commands and WebDAV configuration sync:
//! error values, keyed session registries, transfer cancel flags, edit
//! sessions, local directory walking, file-change watching decisions and
//! WebDAV URL / response handling.

pub mod error;
pub mod text;
pub mod names;
pub mod ids;
pub mod registry;
pub mod transfers;
pub mod paths;
pub mod edit;
pub mod walk;
pub mod watch;
pub mod webdav;
