//! Following chains of symlinks to a fixed point.
//!
//! One hop reads the current destination as a symlink and joins its path
//! with the decoded target. The resolver repeats hops until the probe
//! answers "not a symlink" or a read yields nothing; the first
//! destination is read without a probe, since callers probe before
//! calling. A chain longer than one hop per file in the snapshot would
//! have to revisit a destination and so could never finish; the resolver
//! therefore stops after that many hops, which changes nothing on any
//! chain that finishes at all.

use vstd::prelude::*;
use crate::fsview::FsSnapshot;
use crate::joinpath::join_spec;
use crate::path_model::translate_spec;
use crate::root::CygRoot;
use vstd::string::StringExecFns;
use vstd::string::StrSliceExecFns;

verus! {

/// Where resolution stands after at most `fuel` further hops, starting
/// from `dest`. The probe is consulted except on the first iteration.
pub open spec fn resolve_capped(
    ctx: CygRoot,
    fs: FsSnapshot,
    dest: Seq<char>,
    first: bool,
    fuel: nat,
) -> Seq<char>
    decreases fuel,
{
    if fuel == 0 {
        dest
    } else if !first && !fs.spec_probe(dest) {
        dest
    } else {
        match fs.spec_read_target(dest) {
            None => dest,
            Some(t) => resolve_capped(
                ctx,
                fs,
                join_spec(ctx.spec_root(), dest, t),
                false,
                (fuel - 1) as nat,
            ),
        }
    }
}

/// The hop budget that can never cut a finishing chain short: one more
/// hop than the snapshot has files.
pub open spec fn hop_budget(fs: FsSnapshot) -> nat {
    (fs.files@.len() + 1) as nat
}

impl CygRoot {
    /// Follows the symlink at `path` for exactly one hop: the joined
    /// target when the file reads as a symlink, the input unchanged
    /// otherwise.
    pub fn resolve_symlink_once(&self, fs: &FsSnapshot, path: &str) -> (r: String)
        ensures
            r@ == match fs.spec_read_target(path@) {
                None => path@,
                Some(t) => join_spec(self.spec_root(), path@, t),
            },
    {
        match self.read_symlink_contents(fs, path) {
            None => String::from_str(path),
            Some(target) => self.join_symlink_native_path_and_cygwin_target(
                path,
                target.as_str(),
            ),
        }
    }

    /// Follows the symlink at `path` hop by hop until the probe denies a
    /// destination or a read yields nothing. The first destination is
    /// read without a probe.
    pub fn resolve_symlink(&self, fs: &FsSnapshot, path: &str) -> (r: String)
        ensures
            r@ == resolve_capped(*self, *fs, path@, true, hop_budget(*fs)),
    {
        let ghost total = hop_budget(*fs);
        let mut dest: String;
        match self.read_symlink_contents(fs, path) {
            None => {
                return String::from_str(path);
            },
            Some(target) => {
                dest = self.join_symlink_native_path_and_cygwin_target(path, target.as_str());
            },
        }
        let mut budget: usize = fs.files.len();
        proof {
            assert(resolve_capped(*self, *fs, path@, true, total) == resolve_capped(
                *self,
                *fs,
                dest@,
                false,
                budget as nat,
            ));
        }
        while budget > 0
            invariant
                total == hop_budget(*fs),
                resolve_capped(*self, *fs, path@, true, total) == resolve_capped(
                    *self,
                    *fs,
                    dest@,
                    false,
                    budget as nat,
                ),
            decreases budget,
        {
            if !fs.probe(dest.as_str()) {
                return dest;
            }
            match self.read_symlink_contents(fs, dest.as_str()) {
                None => {
                    return dest;
                },
                Some(target) => {
                    let next = self.join_symlink_native_path_and_cygwin_target(
                        dest.as_str(),
                        target.as_str(),
                    );
                    proof {
                        assert(resolve_capped(*self, *fs, dest@, false, budget as nat)
                            == resolve_capped(*self, *fs, next@, false, (budget - 1) as nat));
                    }
                    dest = next;
                },
            }
            budget = budget - 1;
        }
        dest
    }

    /// Resolves a path end to end: a passthrough when the context is not
    /// active; otherwise the input is translated if it is POSIX-style
    /// absolute, and the result is followed through symlinks only when
    /// the probe marks it.
    pub fn resolve_path(&self, fs: &FsSnapshot, path: &str) -> (r: String)
        ensures
            !self.spec_active() ==> r@ == path@,
            self.spec_active() ==> r@ == ({
                let pn = if path@.len() > 0 && path@[0] == '/' {
                    translate_spec(self.spec_root(), path@)
                } else {
                    path@
                };
                if !fs.spec_probe(pn) {
                    pn
                } else {
                    resolve_capped(*self, *fs, pn, true, hop_budget(*fs))
                }
            }),
            (path@.len() == 0 || path@[0] != '/') && !fs.spec_probe(path@) ==> r@ == path@,
    {
        if !self.running_under_cygwin {
            return String::from_str(path);
        }
        let starts_abs = path.unicode_len() > 0 && path.get_char(0) == '/';
        let p_native: String = if starts_abs {
            self.convert_path_to_native(path)
        } else {
            String::from_str(path)
        };
        if !fs.probe(p_native.as_str()) {
            return p_native;
        }
        self.resolve_symlink(fs, p_native.as_str())
    }
}

} // verus!
