//! The mathematical model of path text.
//!
//! A POSIX-style path is a sequence of characters in which runs of `/` (and,
//! as a compatibility quirk, `\`) separate components. A native path is the
//! same sequence joined with single backslashes, optionally behind a prefix:
//! either a drive root `L:\` (for the cygdrive pattern) or the compatibility
//! root directory. Everything here is specification-level; the executable
//! translator in `translate` is proved against [`translate_spec`].

use vstd::prelude::*;

verus! {

/// Path separator: the slash of POSIX text and the backslash of native text.
pub open spec fn is_sep(c: char) -> bool {
    c == '/' || c == '\\'
}

/// An ASCII letter, the only characters accepted as a drive letter.
pub open spec fn is_ascii_letter(c: char) -> bool {
    (97 <= c as u32 && c as u32 <= 122) || (65 <= c as u32 && c as u32 <= 90)
}

/// Upper-cases an ASCII lower-case letter and leaves everything else alone.
pub open spec fn upcase(c: char) -> char {
    if 97 <= c as u32 && c as u32 <= 122 {
        (((c as u32) - 32) as u8) as char
    } else {
        c
    }
}

/// The first index at or after `i` holding a separator, or the length of `s`
/// if no separator follows.
pub open spec fn next_sep(s: Seq<char>, i: int) -> int
    decreases s.len() - i,
        when 0 <= i <= s.len()
{
    if i >= s.len() {
        s.len() as int
    } else if is_sep(s[i]) {
        i
    } else {
        next_sep(s, i + 1)
    }
}

/// The end of the run of `/` characters that starts at `i`: the first index
/// at or after `i` holding anything else, or the length of `s`.
pub open spec fn slash_run_end(s: Seq<char>, i: int) -> int
    decreases s.len() - i,
        when 0 <= i <= s.len()
{
    if i >= s.len() {
        s.len() as int
    } else if s[i] == '/' {
        slash_run_end(s, i + 1)
    } else {
        i
    }
}

/// The non-empty components of `s[i..]`: maximal runs of non-separator
/// characters. Runs of separators collapse to one boundary and contribute
/// no component.
pub open spec fn components_from(s: Seq<char>, i: int) -> Seq<Seq<char>>
    decreases s.len() - i,
        when 0 <= i <= s.len()
        via components_from_dec
{
    if i >= s.len() {
        Seq::empty()
    } else if is_sep(s[i]) {
        components_from(s, i + 1)
    } else {
        seq![s.subrange(i, next_sep(s, i))] + components_from(s, next_sep(s, i))
    }
}

#[via_fn]
proof fn components_from_dec(s: Seq<char>, i: int) {
    if 0 <= i < s.len() && !is_sep(s[i]) {
        lemma_next_sep_bounds(s, i);
    }
}

/// The components of a whole sequence.
pub open spec fn components_of(s: Seq<char>) -> Seq<Seq<char>> {
    components_from(s, 0)
}

/// A component never is empty and never holds a separator.
pub open spec fn valid_component(c: Seq<char>) -> bool {
    c.len() > 0 && forall|k: int| 0 <= k < c.len() ==> !is_sep(#[trigger] c[k])
}

/// Appends one component to a partial native path: a single backslash is
/// inserted unless the path so far is empty or already ends in one.
pub open spec fn push_component_spec(s: Seq<char>, c: Seq<char>) -> Seq<char> {
    if s.len() == 0 || s.last() == '\\' {
        s + c
    } else {
        s + seq!['\\'] + c
    }
}

/// Folds a list of components onto a prefix, left to right.
pub open spec fn cat_components(acc: Seq<char>, cs: Seq<Seq<char>>) -> Seq<char>
    decreases cs.len(),
{
    if cs.len() == 0 {
        acc
    } else {
        cat_components(push_component_spec(acc, cs[0]), cs.drop_first())
    }
}

/// The literal text of the cygdrive pattern's middle part.
pub open spec fn cygdrive_text() -> Seq<char> {
    seq!['c', 'y', 'g', 'd', 'r', 'i', 'v', 'e']
}

/// The cygdrive pattern: one or more leading `/`, the text `cygdrive`, one
/// or more `/`, exactly one ASCII letter, then either the end of the path
/// or a separator. On a match, yields the drive letter and the index just
/// past the consumed region (which takes in a single trailing separator).
pub open spec fn cygdrive_probe(p: Seq<char>) -> Option<(char, int)> {
    if p.len() == 0 || p[0] != '/' {
        None
    } else {
        let i = slash_run_end(p, 0);
        if i + 8 <= p.len() && p.subrange(i, i + 8) == cygdrive_text() {
            let j = slash_run_end(p, i + 8);
            if i + 8 < j && j < p.len() && is_ascii_letter(p[j]) {
                if j + 1 == p.len() {
                    Some((p[j], p.len() as int))
                } else if is_sep(p[j + 1]) {
                    Some((p[j], j + 2))
                } else {
                    None
                }
            } else {
                None
            }
        } else {
            None
        }
    }
}

/// The native prefix standing for a drive root: `L:\` with the letter
/// upper-cased.
pub open spec fn drive_prefix(letter: char) -> Seq<char> {
    seq![upcase(letter), ':', '\\']
}

/// What path translation returns.
///
/// A path that does not begin with `/` is already native-relative: its
/// components are re-joined with backslashes and nothing is prefixed. An
/// absolute path matching the cygdrive pattern maps onto the named drive's
/// root; any other absolute path maps under the compatibility root `root`.
pub open spec fn translate_spec(root: Seq<char>, p: Seq<char>) -> Seq<char> {
    if p.len() > 0 && p[0] == '/' {
        match cygdrive_probe(p) {
            Some(pr) => cat_components(drive_prefix(pr.0), components_from(p, pr.1)),
            None => cat_components(root, components_of(p)),
        }
    } else {
        cat_components(Seq::empty(), components_of(p))
    }
}

pub proof fn lemma_next_sep_bounds(s: Seq<char>, i: int)
    requires
        0 <= i <= s.len(),
    ensures
        i <= next_sep(s, i) <= s.len(),
        forall|k: int| i <= k < next_sep(s, i) ==> !is_sep(#[trigger] s[k]),
        next_sep(s, i) < s.len() ==> is_sep(s[next_sep(s, i)]),
    decreases s.len() - i,
{
    if i < s.len() && !is_sep(s[i]) {
        lemma_next_sep_bounds(s, i + 1);
    }
}

pub proof fn lemma_slash_run_bounds(s: Seq<char>, i: int)
    requires
        0 <= i <= s.len(),
    ensures
        i <= slash_run_end(s, i) <= s.len(),
        forall|k: int| i <= k < slash_run_end(s, i) ==> #[trigger] s[k] == '/',
        slash_run_end(s, i) < s.len() ==> s[slash_run_end(s, i)] != '/',
    decreases s.len() - i,
{
    if i < s.len() && s[i] == '/' {
        lemma_slash_run_bounds(s, i + 1);
    }
}

/// Appending one character moves the end of a `/` run only when the run
/// reached the end of the text and the new character is `/` itself.
pub proof fn lemma_slash_run_push(s: Seq<char>, c: char, i: int)
    requires
        0 <= i <= s.len(),
    ensures
        slash_run_end(s.push(c), i) == if slash_run_end(s, i) == s.len() && c == '/' {
            s.len() + 1int
        } else {
            slash_run_end(s, i)
        },
{
    let r = slash_run_end(s, i);
    lemma_slash_run_bounds(s, i);
    let s2 = s.push(c);
    if r == s.len() && c == '/' {
        assert(forall|k: int| i <= k < s.len() + 1 ==> #[trigger] s2[k] == '/');
        lemma_slash_run_unique(s2, i, s.len() + 1int);
    } else if r == s.len() {
        assert(s2[r] == c);
        lemma_slash_run_unique(s2, i, r);
    } else {
        assert(s2[r] == s[r]);
        assert(forall|k: int| i <= k < r ==> #[trigger] s2[k] == s[k]);
        lemma_slash_run_unique(s2, i, r);
    }
}

/// The suffix view of a component list: components taken from index `e`
/// are the components of the text from `e` on.
pub proof fn lemma_components_from_is_skip(p: Seq<char>, e: int)
    requires
        0 <= e <= p.len(),
    ensures
        components_from(p, e) == components_of(p.skip(e)),
{
    assert(p =~= p.take(e) + p.skip(e));
    lemma_components_offset(p.take(e), p.skip(e), 0);
    assert(p.take(e).len() == e);
}

/// `next_sep` looked up past the end of `s` in `s + t` scans inside `t`.
pub proof fn lemma_next_sep_offset(s: Seq<char>, t: Seq<char>, d: int)
    requires
        0 <= d <= t.len(),
    ensures
        next_sep(s + t, s.len() + d) == s.len() + next_sep(t, d),
    decreases t.len() - d,
{
    if d < t.len() && !is_sep(t[d]) {
        lemma_next_sep_offset(s, t, d + 1);
    }
}

/// `next_sep` inside the left half of `s + t` either finds a separator in
/// `s` or continues into `t`.
pub proof fn lemma_next_sep_concat(s: Seq<char>, t: Seq<char>, i: int)
    requires
        0 <= i <= s.len(),
    ensures
        next_sep(s + t, i) == if next_sep(s, i) < s.len() {
            next_sep(s, i)
        } else {
            s.len() + next_sep(t, 0)
        },
    decreases s.len() - i,
{
    if i == s.len() {
        lemma_next_sep_offset(s, t, 0);
    } else if !is_sep(s[i]) {
        lemma_next_sep_concat(s, t, i + 1);
    }
}

/// Components taken past the end of `s` in `s + t` are components of `t`.
pub proof fn lemma_components_offset(s: Seq<char>, t: Seq<char>, d: int)
    requires
        0 <= d <= t.len(),
    ensures
        components_from(s + t, s.len() + d) == components_from(t, d),
    decreases t.len() - d,
{
    if d < t.len() {
        if is_sep(t[d]) {
            lemma_components_offset(s, t, d + 1);
        } else {
            let j = next_sep(t, d);
            lemma_next_sep_bounds(t, d);
            lemma_next_sep_offset(s, t, d);
            lemma_components_offset(s, t, j);
            assert((s + t).subrange(s.len() + d, s.len() + j) =~= t.subrange(d, j));
        }
    }
}

/// Splitting at a separator boundary splits the component list: when no
/// component can span the junction of `s` and `t`, the components of
/// `s + t` are those of `s` followed by those of `t`.
pub proof fn lemma_components_concat(s: Seq<char>, t: Seq<char>)
    requires
        t.len() == 0 || s.len() == 0 || is_sep(s.last()) || is_sep(t[0]),
    ensures
        components_of(s + t) == components_of(s) + components_of(t),
{
    lemma_components_concat_from(s, t, 0);
    assert(components_from(s, 0) + components_from(t, 0) == components_of(s) + components_of(t));
}

proof fn lemma_components_concat_from(s: Seq<char>, t: Seq<char>, i: int)
    requires
        0 <= i <= s.len(),
        t.len() == 0 || s.len() == 0 || is_sep(s.last()) || is_sep(t[0]),
    ensures
        components_from(s + t, i) == components_from(s, i) + components_from(t, 0),
    decreases s.len() - i,
{
    if t.len() == 0 {
        assert(s + t =~= s);
        assert(components_from(t, 0) =~= Seq::<Seq<char>>::empty());
        assert(components_from(s, i) + components_from(t, 0) =~= components_from(s, i));
    } else if i == s.len() {
        lemma_components_offset(s, t, 0);
        assert(components_from(s, i) + components_from(t, 0) =~= components_from(t, 0));
    } else if is_sep(s[i]) {
        lemma_components_concat_from(s, t, i + 1);
        assert((s + t)[i] == s[i]);
    } else {
        let j = next_sep(s, i);
        lemma_next_sep_bounds(s, i);
        lemma_next_sep_concat(s, t, i);
        // A separator stands at `s.last()` or at `t[0]`, so the component
        // starting at `i` ends no later than the junction.
        if j == s.len() {
            // then s.last() is not a separator, so t[0] is one
            if s.len() > 0 && is_sep(s.last()) {
                assert(is_sep(s[s.len() - 1]));
                assert(false);
            }
            assert(is_sep(t[0]));
            assert(next_sep(t, 0) == 0);
            assert(next_sep(s + t, i) == s.len());
            lemma_components_concat_from(s, t, s.len() as int);
            assert((s + t).subrange(i, s.len() as int) =~= s.subrange(i, j));
        } else {
            assert(next_sep(s + t, i) == j);
            lemma_components_concat_from(s, t, j);
            assert((s + t).subrange(i, j) =~= s.subrange(i, j));
        }
    }
}

/// A trailing separator adds no component.
pub proof fn lemma_components_push_sep(s: Seq<char>, c: char)
    requires
        is_sep(c),
    ensures
        components_of(s.push(c)) == components_of(s),
{
    assert(s.push(c) =~= s + seq![c]);
    lemma_components_concat(s, seq![c]);
    assert(components_from(seq![c], 0) == components_from(seq![c], 1));
    assert(components_from(seq![c], 1) =~= Seq::<Seq<char>>::empty());
    assert(components_of(s) + Seq::<Seq<char>>::empty() =~= components_of(s));
}

/// Every component is non-empty and free of separators.
pub proof fn lemma_components_valid(s: Seq<char>, i: int)
    requires
        0 <= i <= s.len(),
    ensures
        forall|j: int|
            0 <= j < components_from(s, i).len() ==> valid_component(
                #[trigger] components_from(s, i)[j],
            ),
    decreases s.len() - i,
{
    if i >= s.len() {
        assert(components_from(s, i) =~= Seq::<Seq<char>>::empty());
    } else {
        if is_sep(s[i]) {
            lemma_components_valid(s, i + 1);
            assert(components_from(s, i) == components_from(s, i + 1));
        } else {
            let j = next_sep(s, i);
            lemma_next_sep_bounds(s, i);
            assert(next_sep(s, i) == next_sep(s, i + 1));
            lemma_next_sep_bounds(s, i + 1);
            assert(i < j);
            lemma_components_valid(s, j);
            let comp = s.subrange(i, j);
            assert(forall|k: int| 0 <= k < comp.len() ==> !is_sep(#[trigger] comp[k]));
            assert(valid_component(comp));
            let rest = components_from(s, j);
            assert(components_from(s, i) == seq![comp] + rest);
            assert forall|j2: int| 0 <= j2 < components_from(s, i).len() implies valid_component(
                #[trigger] components_from(s, i)[j2],
            ) by {
                if j2 == 0 {
                    assert(components_from(s, i)[0] == comp);
                } else {
                    assert(components_from(s, i)[j2] == rest[j2 - 1]);
                }
            }
        }
    }
}

/// A sequence that is all one component splits into exactly itself.
pub proof fn lemma_components_single(c: Seq<char>)
    requires
        valid_component(c),
    ensures
        components_of(c) == seq![c],
{
    lemma_next_sep_bounds(c, 0);
    if next_sep(c, 0) < c.len() {
        assert(is_sep(c[next_sep(c, 0)]));
        assert(false);
    }
    assert(c.subrange(0, c.len() as int) =~= c);
    assert(components_from(c, c.len() as int) =~= Seq::<Seq<char>>::empty());
    assert(seq![c] + Seq::<Seq<char>>::empty() =~= seq![c]);
}

/// Appending one valid component appends exactly one entry to the
/// component list.
pub proof fn lemma_components_push_component(s: Seq<char>, c: Seq<char>)
    requires
        valid_component(c),
    ensures
        components_of(push_component_spec(s, c)) == components_of(s).push(c),
{
    lemma_components_single(c);
    if s.len() == 0 {
        assert(s + c =~= c);
        assert(components_of(s) =~= Seq::<Seq<char>>::empty());
        assert(components_of(s).push(c) =~= seq![c]);
    } else if s.last() == '\\' {
        lemma_components_concat(s, c);
        assert(components_of(s) + seq![c] =~= components_of(s).push(c));
    } else {
        let mid = seq!['\\'] + c;
        lemma_components_concat(s, mid);
        lemma_components_offset(seq!['\\'], c, 0);
        assert(seq!['\\'] + c =~= mid);
        assert(is_sep(mid[0]));
        assert(components_from(mid, 0) == components_from(mid, 1));
        assert(components_from(mid, 1) == components_of(c));
        assert(s + seq!['\\'] + c =~= s + mid);
        assert(components_of(s) + seq![c] =~= components_of(s).push(c));
    }
}

/// Folding a list of valid components onto a prefix appends them all to
/// the prefix's own component list.
pub proof fn lemma_components_cat(acc: Seq<char>, cs: Seq<Seq<char>>)
    requires
        forall|j: int| 0 <= j < cs.len() ==> valid_component(#[trigger] cs[j]),
    ensures
        components_of(cat_components(acc, cs)) == components_of(acc) + cs,
    decreases cs.len(),
{
    if cs.len() == 0 {
        assert(components_of(acc) + cs =~= components_of(acc));
    } else {
        lemma_components_push_component(acc, cs[0]);
        lemma_components_cat(push_component_spec(acc, cs[0]), cs.drop_first());
        assert(components_of(acc).push(cs[0]) + cs.drop_first() =~= components_of(acc) + cs);
    }
}

/// Folding components onto a non-empty prefix never disturbs the prefix.
pub proof fn lemma_cat_keeps_prefix(acc: Seq<char>, cs: Seq<Seq<char>>)
    requires
        acc.len() > 0,
    ensures
        cat_components(acc, cs).len() >= acc.len(),
        cat_components(acc, cs).subrange(0, acc.len() as int) == acc,
    decreases cs.len(),
{
    if cs.len() == 0 {
        assert(cat_components(acc, cs).subrange(0, acc.len() as int) =~= acc);
    } else {
        let acc2 = push_component_spec(acc, cs[0]);
        assert(acc2.len() >= acc.len());
        assert(acc2.subrange(0, acc.len() as int) =~= acc);
        lemma_cat_keeps_prefix(acc2, cs.drop_first());
        assert(cat_components(acc2, cs.drop_first()).subrange(0, acc.len() as int) =~= acc);
    }
}

/// The characterisation of `slash_run_end` pins its value: any index with
/// the three properties is the run's end.
pub proof fn lemma_slash_run_unique(s: Seq<char>, i: int, r: int)
    requires
        0 <= i <= r <= s.len(),
        forall|k: int| i <= k < r ==> #[trigger] s[k] == '/',
        r < s.len() ==> s[r] != '/',
    ensures
        slash_run_end(s, i) == r,
    decreases r - i,
{
    if i < r {
        lemma_slash_run_unique(s, i + 1, r);
    }
}

} // verus!
