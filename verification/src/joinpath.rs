//! Joining a symlink's native path with its decoded target text.
//!
//! A target that begins with `/` is a fresh POSIX-style absolute path and
//! goes through the translator, letting a symlink point at another drive
//! or back under the compatibility root. Any other target is native-
//! relative: its slashes become backslashes and it is joined onto the
//! parent directory of the symlink's own path — or stands alone when that
//! path has no parent.
//!
//! Deliberately preserved limitation: the join neither collapses `..`
//! segments nor re-detects a cygdrive pattern reached through them, so
//! such targets stay under the parent directory instead of escaping it.

use vstd::prelude::*;
use crate::path_model::{is_sep, translate_spec};
use crate::root::CygRoot;
use crate::text::{append_range, chars_of, push_char};

verus! {

/// A slash turned into a backslash; every other character kept.
pub open spec fn bslash(c: char) -> char {
    if c == '/' {
        '\\'
    } else {
        c
    }
}

/// The target text with every slash turned into a backslash.
pub open spec fn backslashed(t: Seq<char>) -> Seq<char>
    decreases t.len(),
{
    if t.len() == 0 {
        Seq::empty()
    } else {
        backslashed(t.drop_last()).push(bslash(t.last()))
    }
}

/// The text with its trailing separators removed.
pub open spec fn trim_trailing_seps(s: Seq<char>) -> Seq<char>
    decreases s.len(),
{
    if s.len() > 0 && is_sep(s.last()) {
        trim_trailing_seps(s.drop_last())
    } else {
        s
    }
}

/// The index of the last separator, or `-1` when none occurs.
pub open spec fn last_sep_index(s: Seq<char>) -> int
    decreases s.len(),
{
    if s.len() == 0 {
        -1
    } else if is_sep(s.last()) {
        s.len() - 1
    } else {
        last_sep_index(s.drop_last())
    }
}

/// The parent directory of a native path: the text before its last
/// separator, ignoring trailing separators, keeping a separator that
/// stands first (a root). An empty path or a bare filename has none.
pub open spec fn parent_spec(s: Seq<char>) -> Option<Seq<char>> {
    let q = trim_trailing_seps(s);
    let k = last_sep_index(q);
    if k < 0 {
        None
    } else if k == 0 {
        Some(q.subrange(0, 1))
    } else {
        Some(q.subrange(0, k))
    }
}

/// A directory joined with a native-relative path: one backslash stands
/// between them unless the directory is empty or already ends in a
/// separator.
pub open spec fn winjoin(dir: Seq<char>, rel: Seq<char>) -> Seq<char> {
    if dir.len() == 0 {
        rel
    } else if is_sep(dir.last()) {
        dir + rel
    } else {
        dir + seq!['\\'] + rel
    }
}

/// What joining a symlink's native path with its target text returns.
pub open spec fn join_spec(root: Seq<char>, native: Seq<char>, target: Seq<char>) -> Seq<char> {
    if target.len() > 0 && target[0] == '/' {
        translate_spec(root, target)
    } else {
        match parent_spec(native) {
            None => backslashed(target),
            Some(dir) => winjoin(dir, backslashed(target)),
        }
    }
}

impl CygRoot {
    /// Joins the native path of a symlink file with the target text read
    /// from it: an absolute target goes through the translator on its
    /// own; a relative one hangs off the parent directory of
    /// `native_path`, or stands alone when there is no parent.
    pub fn join_symlink_native_path_and_cygwin_target(
        &self,
        native_path: &str,
        cygwin_path: &str,
    ) -> (r: String)
        ensures
            r@ == join_spec(self.spec_root(), native_path@, cygwin_path@),
    {
        let t = chars_of(cygwin_path);
        let tn: usize = t.len();
        if tn > 0 && t[0] == '/' {
            return self.convert_path_to_native(cygwin_path);
        }
        // Turn the target's slashes into backslashes.
        let mut rel = String::new();
        let mut k: usize = 0;
        proof {
            assert(backslashed(t@.subrange(0, 0)) =~= Seq::<char>::empty());
        }
        while k < tn
            invariant
                k <= tn,
                tn == t@.len(),
                t@ == cygwin_path@,
                rel@ == backslashed(t@.subrange(0, k as int)),
            decreases tn - k,
        {
            if t[k] == '/' {
                push_char(&mut rel, '\\');
            } else {
                push_char(&mut rel, t[k]);
            }
            proof {
                assert(t@.subrange(0, k as int + 1).drop_last() =~= t@.subrange(0, k as int));
                assert(t@.subrange(0, k as int + 1).last() == t@[k as int]);
            }
            k = k + 1;
        }
        proof {
            assert(t@.subrange(0, tn as int) =~= t@);
        }
        let nv = chars_of(native_path);
        let ghost np = native_path@;
        let nn: usize = nv.len();
        // Drop trailing separators of the symlink's path.
        let mut e: usize = nn;
        proof {
            assert(np.subrange(0, nn as int) =~= np);
        }
        while e > 0 && (nv[e - 1] == '/' || nv[e - 1] == '\\')
            invariant
                e <= nn,
                nn == np.len(),
                nv@ == np,
                trim_trailing_seps(np) == trim_trailing_seps(np.subrange(0, e as int)),
            decreases e,
        {
            proof {
                assert(np.subrange(0, e as int).last() == np[e as int - 1]);
                assert(np.subrange(0, e as int).drop_last() =~= np.subrange(0, e as int - 1));
            }
            e = e - 1;
        }
        let ghost q = trim_trailing_seps(np);
        proof {
            if e > 0 {
                assert(np.subrange(0, e as int).last() == np[e as int - 1]);
            }
            assert(trim_trailing_seps(np.subrange(0, e as int)) == np.subrange(0, e as int));
            assert(q == np.subrange(0, e as int));
        }
        // Find the last separator of what remains.
        let mut m: usize = e;
        proof {
            assert(np.subrange(0, e as int) =~= q);
        }
        while m > 0 && nv[m - 1] != '/' && nv[m - 1] != '\\'
            invariant
                m <= e <= nn,
                nn == np.len(),
                nv@ == np,
                q == trim_trailing_seps(np),
                q == np.subrange(0, e as int),
                last_sep_index(q) == last_sep_index(np.subrange(0, m as int)),
            decreases m,
        {
            proof {
                assert(np.subrange(0, m as int).last() == np[m as int - 1]);
                assert(np.subrange(0, m as int).drop_last() =~= np.subrange(0, m as int - 1));
            }
            m = m - 1;
        }
        if m == 0 {
            // No separator: the path has no parent and the target stands
            // alone.
            proof {
                assert(last_sep_index(np.subrange(0, 0)) == -1);
            }
            return rel;
        }
        proof {
            assert(np.subrange(0, m as int).last() == np[m as int - 1]);
            assert(is_sep(np[m as int - 1]));
            assert(last_sep_index(np.subrange(0, m as int)) == m - 1);
        }
        let pk: usize = if m - 1 == 0 {
            1
        } else {
            m - 1
        };
        proof {
            assert(parent_spec(np) == Some(q.subrange(0, pk as int)));
            assert(q.subrange(0, pk as int) =~= np.subrange(0, pk as int));
        }
        let mut out = String::new();
        append_range(&mut out, &nv, 0, pk);
        let ghost dir = np.subrange(0, pk as int);
        proof {
            assert(out@ =~= dir);
            assert(dir.len() > 0);
            assert(dir.last() == np[pk as int - 1]);
        }
        let lastc = nv[pk - 1];
        if lastc != '/' && lastc != '\\' {
            push_char(&mut out, '\\');
            proof {
                assert(out@ =~= dir + seq!['\\']);
            }
        }
        out.append(rel.as_str());
        proof {
            if is_sep(dir.last()) {
                assert(out@ =~= winjoin(dir, rel@));
            } else {
                assert(dir + seq!['\\'] + rel@ =~= (dir + seq!['\\']) + rel@);
                assert(out@ =~= winjoin(dir, rel@));
            }
        }
        out
    }
}

} // verus!
