//! The resolver's window onto the native filesystem.
//!
//! The two operating-system collaborators — the attribute probe and the
//! file reader — are injected as plain data. An [`FsSnapshot`] holds, for
//! each native file that a resolution may inspect, the path text it is
//! found under, its "system" attribute bit (the probe's signal for "maybe
//! a symlink"), and its raw bytes. A path absent from the snapshot stands
//! for a file that is missing or unreadable: the probe answers false and
//! reading yields nothing, exactly the convention the resolver expects.

use vstd::prelude::*;
use crate::decode::{symlink_target_from_bytes, symlink_target_spec};
use crate::root::CygRoot;
use crate::text::str_eq;

verus! {

/// One native file as the resolver sees it.
pub struct FileEntry {
    /// The native path text the file answers to.
    pub path: String,
    /// Whether the attribute probe reports the "system" bit for it.
    pub system_attribute: bool,
    /// The file's raw bytes.
    pub contents: Vec<u8>,
}

/// The files a resolution may inspect. When one path occurs twice, the
/// earliest entry answers.
pub struct FsSnapshot {
    pub files: Vec<FileEntry>,
}

/// The first entry carrying the given path text, if any.
pub open spec fn find_entry(files: Seq<FileEntry>, path: Seq<char>) -> Option<FileEntry>
    decreases files.len(),
{
    if files.len() == 0 {
        None
    } else if files[0].path@ == path {
        Some(files[0])
    } else {
        find_entry(files.drop_first(), path)
    }
}

impl FsSnapshot {
    /// What the attribute probe answers: false for a missing file,
    /// otherwise the entry's system bit.
    pub open spec fn spec_probe(&self, path: Seq<char>) -> bool {
        match find_entry(self.files@, path) {
            Some(e) => e.system_attribute,
            None => false,
        }
    }

    /// What reading the file yields: its bytes, or nothing for a missing
    /// file.
    pub open spec fn spec_contents(&self, path: Seq<char>) -> Option<Seq<u8>> {
        match find_entry(self.files@, path) {
            Some(e) => Some(e.contents@),
            None => None,
        }
    }

    /// What reading the file as a symlink yields: its decoded target
    /// text, or nothing when the file is missing or its bytes do not
    /// open with the symlink marker.
    pub open spec fn spec_read_target(&self, path: Seq<char>) -> Option<Seq<char>> {
        match self.spec_contents(path) {
            Some(bytes) => symlink_target_spec(bytes),
            None => None,
        }
    }

    fn find(&self, path: &str) -> (r: Option<&FileEntry>)
        ensures
            match r {
                Some(e) => find_entry(self.files@, path@) == Some(*e),
                None => find_entry(self.files@, path@) is None,
            },
    {
        let n: usize = self.files.len();
        let mut i: usize = 0;
        proof {
            assert(self.files@.skip(0) =~= self.files@);
        }
        while i < n
            invariant
                i <= n,
                n == self.files@.len(),
                find_entry(self.files@, path@) == find_entry(self.files@.skip(i as int), path@),
            decreases n - i,
        {
            if str_eq(self.files[i].path.as_str(), path) {
                proof {
                    assert(self.files@.skip(i as int)[0] == self.files@[i as int]);
                }
                return Some(&self.files[i]);
            }
            proof {
                assert(self.files@.skip(i as int).drop_first() =~= self.files@.skip(i as int + 1));
            }
            i = i + 1;
        }
        proof {
            assert(self.files@.skip(n as int).len() == 0);
        }
        None
    }

    /// Answers as the attribute probe would.
    pub fn probe(&self, path: &str) -> (r: bool)
        ensures
            r == self.spec_probe(path@),
    {
        match self.find(path) {
            Some(e) => e.system_attribute,
            None => false,
        }
    }

    /// The file's bytes, or nothing for a missing file.
    pub fn contents_of(&self, path: &str) -> (r: Option<&Vec<u8>>)
        ensures
            match r {
                Some(v) => self.spec_contents(path@) == Some(v@),
                None => self.spec_contents(path@) is None,
            },
    {
        match self.find(path) {
            Some(e) => Some(&e.contents),
            None => None,
        }
    }
}

/// Whether the file could be a symlink of the compatibility layer: the
/// cheap attribute query, answering false for a missing or inaccessible
/// file and otherwise reporting the "system" attribute bit.
pub fn maybe_cygwin_symlink(fs: &FsSnapshot, path: &str) -> (r: bool)
    ensures
        r == fs.spec_probe(path@),
{
    fs.probe(path)
}

impl CygRoot {
    /// Retrieves and decodes the content of a symlink file: nothing when
    /// the file cannot be read or its bytes lack the symlink marker,
    /// otherwise the decoded target text.
    pub fn read_symlink_contents(&self, fs: &FsSnapshot, path: &str) -> (r: Option<String>)
        ensures
            match r {
                Some(s) => fs.spec_read_target(path@) == Some(s@),
                None => fs.spec_read_target(path@) is None,
            },
    {
        match fs.contents_of(path) {
            Some(bytes) => symlink_target_from_bytes(bytes),
            None => None,
        }
    }
}

} // verus!
