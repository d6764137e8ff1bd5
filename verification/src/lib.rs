//! Interprets POSIX-style absolute paths and symlink files produced by a
//! Cygwin-like compatibility layer, from a native Windows-style process.
//!
//! The core is pure: translating a POSIX-style path string into a native
//! path, decoding the byte content of a symlink file into its target text,
//! joining a symlink's native path with that target, and following chains
//! of such symlinks to a fixed point. The operating-system collaborators
//! (the attribute probe and the file reader) are injected as plain data:
//! a [`FsSnapshot`] holds, for each file the resolver may inspect, its
//! attribute bit and its raw bytes.

pub mod decode;
pub mod fsview;
pub mod joinpath;
pub mod laws;
pub mod path_model;
pub mod resolve;
pub mod root;
pub mod translate;
mod text;

pub use fsview::{FileEntry, FsSnapshot};
pub use fsview::maybe_cygwin_symlink;
pub use root::CygRoot;
