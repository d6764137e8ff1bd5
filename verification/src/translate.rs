//! The path translator: POSIX-style path text to native path text, proved
//! against [`translate_spec`].

use vstd::prelude::*;
use vstd::string::StrSliceExecFns;
use vstd::string::StringExecFns;
use crate::path_model::{
    cat_components, components_from, components_of, cygdrive_probe, cygdrive_text, drive_prefix,
    is_sep, next_sep, push_component_spec, slash_run_end, translate_spec,
};
use crate::root::CygRoot;
use crate::text::{append_range, ascii_upcase, chars_of, is_sep_char, push_char, valid_drive_letter};

verus! {

/// Scans for the cygdrive pattern at the head of an absolute path,
/// returning the drive letter and the index just past the consumed region.
fn scan_cygdrive(chars: &Vec<char>) -> (r: Option<(char, usize)>)
    requires
        chars@.len() > 0,
        chars@[0] == '/',
    ensures
        match r {
            Some(pr) => cygdrive_probe(chars@) == Some((pr.0, pr.1 as int)) && pr.1
                <= chars@.len(),
            None => cygdrive_probe(chars@) is None,
        },
{
    let ghost p = chars@;
    let n: usize = chars.len();
    let mut i: usize = 0;
    while i < n && chars[i] == '/'
        invariant
            0 <= i <= n,
            n == p.len(),
            chars@ == p,
            slash_run_end(p, 0) == slash_run_end(p, i as int),
        decreases n - i,
    {
        i = i + 1;
    }
    proof {
        assert(slash_run_end(p, i as int) == i);
        assert(slash_run_end(p, 0) == i);
    }
    if n - i < 8 {
        return None;
    }
    let m = chars[i] == 'c' && chars[i + 1] == 'y' && chars[i + 2] == 'g' && chars[i + 3] == 'd'
        && chars[i + 4] == 'r' && chars[i + 5] == 'i' && chars[i + 6] == 'v' && chars[i + 7]
        == 'e';
    if !m {
        proof {
            let sub = p.subrange(i as int, i as int + 8);
            if sub == cygdrive_text() {
                assert(p[i as int] == sub[0]);
                assert(p[i as int + 1] == sub[1]);
                assert(p[i as int + 2] == sub[2]);
                assert(p[i as int + 3] == sub[3]);
                assert(p[i as int + 4] == sub[4]);
                assert(p[i as int + 5] == sub[5]);
                assert(p[i as int + 6] == sub[6]);
                assert(p[i as int + 7] == sub[7]);
            }
        }
        return None;
    }
    proof {
        assert(p.subrange(i as int, i as int + 8) =~= cygdrive_text());
    }
    let run_start: usize = i + 8;
    let mut j: usize = run_start;
    while j < n && chars[j] == '/'
        invariant
            run_start <= j <= n,
            n == p.len(),
            chars@ == p,
            slash_run_end(p, run_start as int) == slash_run_end(p, j as int),
        decreases n - j,
    {
        j = j + 1;
    }
    proof {
        assert(slash_run_end(p, j as int) == j);
        assert(slash_run_end(p, run_start as int) == j);
    }
    if j == run_start || j >= n {
        return None;
    }
    let letter = chars[j];
    if !valid_drive_letter(letter) {
        return None;
    }
    if j + 1 == n {
        Some((letter, n))
    } else if is_sep_char(chars[j + 1]) {
        Some((letter, j + 2))
    } else {
        None
    }
}

impl CygRoot {
    /// Converts POSIX-style path text to native path text, without
    /// touching the filesystem.
    ///
    /// An input that does not begin with `/` is treated as already
    /// native: only its components are re-joined with backslashes. An
    /// absolute input matching the cygdrive pattern begins at the named
    /// drive's root; any other absolute input begins at the
    /// compatibility root. Runs of separators collapse and a trailing
    /// separator adds nothing. Only meaningful when the context is
    /// active, since otherwise no root is defined.
    pub fn convert_path_to_native(&self, path: &str) -> (r: String)
        ensures
            r@ == translate_spec(self.spec_root(), path@),
    {
        let chars = chars_of(path);
        let ghost p = path@;
        let ghost root = self.spec_root();
        let n: usize = chars.len();
        let mut ret = String::new();
        let mut start: usize = 0;
        if n > 0 && chars[0] == '/' {
            match scan_cygdrive(&chars) {
                Some(pr) => {
                    let up = ascii_upcase(pr.0);
                    push_char(&mut ret, up);
                    ret.append(":\\");
                    start = pr.1;
                    proof {
                        reveal_strlit(":\\");
                        assert(":\\"@.len() == 2);
                        assert(ret@ =~= drive_prefix(pr.0));
                    }
                },
                None => {
                    ret.append(self.native_path_to_root.as_str());
                    proof {
                        assert(ret@ =~= root);
                    }
                },
            }
        }
        proof {
            assert(translate_spec(root, p) == cat_components(ret@, components_from(p, start as int)));
        }
        let mut i: usize = start;
        while i < n
            invariant
                i <= n,
                n == p.len(),
                chars@ == p,
                translate_spec(root, p) == cat_components(
                    ret@,
                    components_from(p, i as int),
                ),
            decreases n - i,
        {
            if is_sep_char(chars[i]) {
                proof {
                    assert(components_from(p, i as int) == components_from(p, i as int + 1));
                }
                i = i + 1;
            } else {
                let comp_start: usize = i;
                while i < n && chars[i] != '/' && chars[i] != '\\'
                    invariant
                        comp_start <= i <= n,
                        n == p.len(),
                        chars@ == p,
                        next_sep(p, comp_start as int) == next_sep(p, i as int),
                    decreases n - i,
                {
                    proof {
                        assert(!is_sep(p[i as int]));
                    }
                    i = i + 1;
                }
                proof {
                    assert(next_sep(p, i as int) == i);
                    assert(next_sep(p, comp_start as int) == i);
                }
                let ghost acc = ret@;
                let rl: usize = ret.as_str().unicode_len();
                if rl > 0 {
                    let lastc = ret.as_str().get_char(rl - 1);
                    if lastc != '\\' {
                        push_char(&mut ret, '\\');
                    }
                }
                append_range(&mut ret, &chars, comp_start, i);
                proof {
                    let comp = p.subrange(comp_start as int, i as int);
                    assert(ret@ =~= push_component_spec(acc, comp));
                    let cs = seq![comp] + components_from(p, i as int);
                    assert(components_from(p, comp_start as int) == cs);
                    assert(cs[0] == comp);
                    assert(cs.drop_first() =~= components_from(p, i as int));
                    assert(cat_components(acc, cs) == cat_components(
                        push_component_spec(acc, comp),
                        components_from(p, i as int),
                    ));
                }
            }
        }
        proof {
            assert(components_from(p, n as int) =~= Seq::<Seq<char>>::empty());
        }
        ret
    }
}

} // verus!
