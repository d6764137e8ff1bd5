//! Properties of translation and joining, proved once for all inputs.

use vstd::prelude::*;
use crate::joinpath::{backslashed, join_spec, parent_spec, winjoin};
use crate::path_model::{
    cat_components, components_from, components_of, cygdrive_probe, cygdrive_text, drive_prefix,
    is_ascii_letter, is_sep, lemma_cat_keeps_prefix, lemma_components_cat,
    lemma_components_from_is_skip, lemma_components_push_sep, lemma_components_valid,
    lemma_slash_run_bounds, lemma_slash_run_push, lemma_slash_run_unique, push_component_spec,
    slash_run_end, translate_spec, valid_component,
};

verus! {

/// Translating `/cygdrive/<letter>` yields exactly the drive root
/// `<LETTER>:\`, for every ASCII letter of either case.
pub proof fn lemma_translate_cygdrive_root(root: Seq<char>, letter: char)
    requires
        is_ascii_letter(letter),
    ensures
        translate_spec(root, seq!['/', 'c', 'y', 'g', 'd', 'r', 'i', 'v', 'e', '/'].push(letter))
            == drive_prefix(letter),
{
    let p = seq!['/', 'c', 'y', 'g', 'd', 'r', 'i', 'v', 'e', '/'].push(letter);
    assert(p.len() == 11);
    assert(p[0] == '/');
    assert(p[1] == 'c');
    lemma_slash_run_unique(p, 0, 1);
    assert(p.subrange(1, 9) =~= cygdrive_text());
    assert(p[9] == '/');
    assert(letter != '/') by {
        assert(is_ascii_letter(letter));
        assert('/' as u32 == 47);
    }
    assert(p[10] == letter);
    lemma_slash_run_unique(p, 9, 10);
    assert(cygdrive_probe(p) == Some((letter, 11int)));
    assert(components_from(p, 11) =~= Seq::<Seq<char>>::empty());
    assert(translate_spec(root, p) == cat_components(drive_prefix(letter), Seq::empty()));
}

/// Translation is idempotent on input that does not begin with `/`: such
/// input is a passthrough component copy, and copying the copy changes
/// nothing.
pub proof fn lemma_translate_passthrough_idempotent(root: Seq<char>, p: Seq<char>)
    requires
        p.len() == 0 || p[0] != '/',
    ensures
        translate_spec(root, translate_spec(root, p)) == translate_spec(root, p),
{
    let cs = components_of(p);
    lemma_components_valid(p, 0);
    let t = cat_components(Seq::<char>::empty(), cs);
    assert(translate_spec(root, p) == t);
    lemma_components_cat(Seq::<char>::empty(), cs);
    assert(components_from(Seq::<char>::empty(), 0) =~= Seq::<Seq<char>>::empty());
    assert(components_of(t) =~= cs);
    if cs.len() == 0 {
        assert(t =~= Seq::<char>::empty());
        assert(translate_spec(root, t) == cat_components(Seq::<char>::empty(), components_of(t)));
    } else {
        let c0 = cs[0];
        assert(valid_component(c0));
        assert(Seq::<char>::empty() + c0 =~= c0);
        assert(push_component_spec(Seq::<char>::empty(), c0) == c0);
        assert(t == cat_components(c0, cs.drop_first()));
        lemma_cat_keeps_prefix(c0, cs.drop_first());
        assert(t[0] == c0[0]);
        assert(!is_sep(c0[0]));
        assert(t.len() > 0 && t[0] != '/');
        assert(translate_spec(root, t) == cat_components(Seq::<char>::empty(), components_of(t)));
    }
}

/// A trailing separator never changes the translation: no trailing empty
/// component is produced. (The empty path stands apart: a separator
/// appended to nothing forms the absolute path `/`, which translates to
/// the root instead of staying empty.)
pub proof fn lemma_translate_trailing_sep(root: Seq<char>, p: Seq<char>, c: char)
    requires
        p.len() > 0,
        is_sep(c),
    ensures
        translate_spec(root, p.push(c)) == translate_spec(root, p),
{
    let p2 = p.push(c);
    assert(p2[0] == p[0]);
    if p[0] != '/' {
        lemma_components_push_sep(p, c);
    } else {
        lemma_translate_trailing_sep_absolute(root, p, c);
    }
}

proof fn lemma_translate_trailing_sep_absolute(root: Seq<char>, p: Seq<char>, c: char)
    requires
        p.len() > 0,
        p[0] == '/',
        is_sep(c),
    ensures
        translate_spec(root, p.push(c)) == translate_spec(root, p),
{
    let p2 = p.push(c);
    assert(p2[0] == p[0]);
    assert('/' as u32 == 47 && '\\' as u32 == 92 && 'e' as u32 == 101);
    let i = slash_run_end(p, 0);
    lemma_slash_run_bounds(p, 0);
    lemma_slash_run_push(p, c, 0);
    let i2 = slash_run_end(p2, 0);
    if i + 8 <= p.len() && p.subrange(i, i + 8) == cygdrive_text() {
        assert(i2 == i);
        assert(p2.subrange(i, i + 8) =~= p.subrange(i, i + 8));
        let j = slash_run_end(p, i + 8);
        lemma_slash_run_bounds(p, i + 8);
        lemma_slash_run_push(p, c, i + 8);
        let j2 = slash_run_end(p2, i + 8);
        if i + 8 < j && j < p.len() && is_ascii_letter(p[j]) {
            assert(j2 == j);
            assert(p2[j] == p[j]);
            if j + 1 == p.len() {
                assert(cygdrive_probe(p) == Some((p[j], p.len() as int)));
                assert(p2[j + 1] == c);
                assert(cygdrive_probe(p2) == Some((p[j], j + 2)));
                assert(components_from(p, p.len() as int) =~= Seq::<Seq<char>>::empty());
                assert(components_from(p2, j + 2) =~= Seq::<Seq<char>>::empty());
            } else if is_sep(p[j + 1]) {
                assert(p2[j + 1] == p[j + 1]);
                assert(cygdrive_probe(p) == Some((p[j], j + 2)));
                assert(cygdrive_probe(p2) == Some((p[j], j + 2)));
                lemma_components_from_is_skip(p, j + 2);
                lemma_components_from_is_skip(p2, j + 2);
                assert(p2.skip(j + 2) =~= p.skip(j + 2).push(c));
                lemma_components_push_sep(p.skip(j + 2), c);
            } else {
                assert(p2[j + 1] == p[j + 1]);
                assert(cygdrive_probe(p) is None);
                assert(cygdrive_probe(p2) is None);
                lemma_components_push_sep(p, c);
            }
        } else {
            assert(cygdrive_probe(p) is None);
            if j < p.len() {
                // the run ends inside `p`: everything the probe looks at
                // is unchanged
                assert(j2 == j);
                if i + 8 < j {
                    assert(!is_ascii_letter(p[j]));
                    assert(p2[j] == p[j]);
                }
                assert(cygdrive_probe(p2) is None);
            } else {
                // the run of slashes after `cygdrive` reaches the end
                if c == '/' {
                    assert(j2 == p.len() + 1int);
                    assert(!(j2 < p2.len()));
                } else {
                    assert(j2 == j);
                    if i + 8 < j2 {
                        assert(p2[j] == c);
                        assert(!is_ascii_letter(c));
                    }
                }
                assert(cygdrive_probe(p2) is None);
            }
            lemma_components_push_sep(p, c);
        }
    } else {
        assert(cygdrive_probe(p) is None);
        if i + 8 <= p.len() {
            // the text after the leading slashes is not `cygdrive`
            assert(i < p.len());
            assert(i2 == i);
            assert(p2.subrange(i, i + 8) =~= p.subrange(i, i + 8));
            assert(cygdrive_probe(p2) is None);
        } else {
            // too little text is left for the pattern; one more
            // character is either a slash extending the run or a
            // separator where `cygdrive`'s final letter would stand
            if i2 + 8 <= p2.len() {
                assert(i2 == i);
                assert(i + 8 == p2.len());
                let sub = p2.subrange(i, i + 8);
                if sub == cygdrive_text() {
                    assert(sub[7] == p2[i + 7]);
                    assert(p2[i + 7] == c);
                    assert(cygdrive_text()[7] == 'e');
                    assert(false);
                }
            }
            assert(cygdrive_probe(p2) is None);
        }
        lemma_components_push_sep(p, c);
    }
}

/// Joining with a target that begins with `/` ignores the symlink's own
/// directory entirely: the result is the translation of the target alone.
pub proof fn lemma_join_absolute_target(root: Seq<char>, native: Seq<char>, target: Seq<char>)
    requires
        target.len() > 0,
        target[0] == '/',
    ensures
        join_spec(root, native, target) == translate_spec(root, target),
{
}

/// Joining with a target that has no leading `/` hangs the normalized
/// target off the parent directory of the symlink's path, or leaves it
/// alone when that path has no parent.
pub proof fn lemma_join_relative_target(root: Seq<char>, native: Seq<char>, target: Seq<char>)
    requires
        target.len() == 0 || target[0] != '/',
    ensures
        join_spec(root, native, target) == match parent_spec(native) {
            None => backslashed(target),
            Some(dir) => winjoin(dir, backslashed(target)),
        },
{
}

} // verus!
