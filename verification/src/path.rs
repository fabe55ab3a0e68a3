//! Paths as text: segments between `/`, file names, extensions, joining and
//! home-relative (`~`) paths. Nothing here looks at a file system.

use crate::text::{chars_of, pieces, split_chars, string_of, views, Separator};
use vstd::prelude::*;
use vstd::string::StringExecFns;

verus! {

/// The non-empty pieces of `path` between `/` characters.
pub open spec fn segments(path: Seq<char>) -> Seq<Seq<char>> {
    pieces(path, Separator::Char('/'))
}

/// The segments of `path`.
pub fn path_segments(path: &str) -> (out: Vec<String>)
    ensures
        views(out@) == segments(path@),
{
    let chars = chars_of(path);
    split_chars(&chars, Separator::Char('/'))
}

/// The last segment of `path`; empty when it has none.
pub open spec fn file_name_of(path: Seq<char>) -> Seq<char> {
    let segs = segments(path);
    if segs.len() == 0 {
        Seq::empty()
    } else {
        segs.last()
    }
}

/// The last segment of `path`; empty when it has none.
pub fn file_name(path: &str) -> (out: String)
    ensures
        out@ == file_name_of(path@),
{
    let mut segs = path_segments(path);
    let ghost all = segs@;
    match segs.pop() {
        Some(last) => {
            assert(views(all).last() == all.last()@);
            last
        },
        None => String::new(),
    }
}

/// The index of the last `.` in `name`, or -1 when it holds none.
pub open spec fn last_dot(name: Seq<char>) -> int
    decreases name.len(),
{
    if name.len() == 0 {
        -1
    } else if name.last() == '.' {
        name.len() - 1
    } else {
        last_dot(name.drop_last())
    }
}

/// `at` is the last dot when it is a dot and none follows.
pub proof fn lemma_last_dot_is(name: Seq<char>, at: int)
    requires
        -1 <= at < name.len(),
        at >= 0 ==> name[at] == '.',
        forall|k: int| at < k < name.len() ==> name[k] != '.',
    ensures
        last_dot(name) == at,
    decreases name.len(),
{
    if name.len() > 0 && at < name.len() - 1 {
        let t = name.drop_last();
        lemma_last_dot_is(t, at);
    }
}

/// The extension of a file name: what follows its last dot. A name without
/// a dot has none, nor has one whose only dot comes first, nor has `..`.
pub open spec fn extension_of(name: Seq<char>) -> Option<Seq<char>> {
    let dot = last_dot(name);
    if dot <= 0 || name == seq!['.', '.'] {
        None
    } else {
        Some(name.skip(dot + 1))
    }
}

/// The extension of the file name `name`.
pub fn extension(name: &str) -> (out: Option<String>)
    ensures
        match out {
            Some(e) => extension_of(name@) == Some(e@),
            None => extension_of(name@) is None,
        },
{
    let chars = chars_of(name);
    let n = chars.len();
    let mut i: usize = n;
    while i > 0 && chars[i - 1] != '.'
        invariant
            i <= n == chars.len(),
            forall|k: int| i <= k < n ==> chars@[k] != '.',
        decreases i,
    {
        i -= 1;
    }
    proof {
        lemma_last_dot_is(chars@, i - 1);
    }
    // the last dot, if any, is at i - 1
    if i <= 1 {
        return None;
    }
    if n == 2 && chars[0] == '.' && chars[1] == '.' {
        assert(chars@ =~= seq!['.', '.']);
        return None;
    }
    assert(chars@ != seq!['.', '.']) by {
        if chars@ == seq!['.', '.'] {
            assert(seq!['.', '.'].len() == 2);
            assert(seq!['.', '.'][0] == '.');
            assert(seq!['.', '.'][1] == '.');
        }
    }
    let ext = string_of(&chars, i, n);
    assert(chars@.subrange(i as int, n as int) =~= chars@.skip(i as int));
    Some(ext)
}

/// `rel` below `base`: `rel` itself when it starts at the root, else `base`
/// and `rel` with exactly one `/` between them (none after an empty base or
/// one that already ends in `/`).
pub open spec fn joined(base: Seq<char>, rel: Seq<char>) -> Seq<char> {
    if rel.len() > 0 && rel[0] == '/' {
        rel
    } else if base.len() == 0 || base.last() == '/' {
        base + rel
    } else {
        base + seq!['/'] + rel
    }
}

/// Joins `rel` onto `base`.
pub fn join(base: &str, rel: &str) -> (out: String)
    ensures
        out@ == joined(base@, rel@),
{
    let b = chars_of(base);
    let r = chars_of(rel);
    if r.len() > 0 && r[0] == '/' {
        return string_of(&r, 0, r.len());
    }
    let mut out = string_of(&b, 0, b.len());
    assert(b@.subrange(0, b@.len() as int) =~= b@);
    if !(b.len() == 0 || b[b.len() - 1] == '/') {
        out.push('/');
    }
    out.append(rel);
    out
}

/// `input` with a leading `~` replaced by `home`: `~` alone is `home`,
/// `~/rest` is `rest` below `home`, anything else is left as it is.
pub open spec fn tilde_expanded(home: Seq<char>, input: Seq<char>) -> Seq<char> {
    if input == seq!['~'] {
        home
    } else if seq!['~', '/'].is_prefix_of(input) {
        joined(home, input.skip(2))
    } else {
        input
    }
}

/// Expands a leading `~` in `input` against `home`.
pub fn expand_tilde(home: &str, input: &str) -> (out: String)
    ensures
        out@ == tilde_expanded(home@, input@),
{
    let chars = chars_of(input);
    let n = chars.len();
    if n == 1 && chars[0] == '~' {
        assert(chars@ =~= seq!['~']);
        return home.to_string();
    }
    assert(chars@ != seq!['~']) by {
        if chars@ == seq!['~'] {
            assert(seq!['~'].len() == 1);
            assert(seq!['~'][0] == '~');
        }
    }
    if n >= 2 && chars[0] == '~' && chars[1] == '/' {
        assert(seq!['~', '/'] =~= chars@.subrange(0, 2));
        let rest = string_of(&chars, 2, n);
        assert(chars@.subrange(2, n as int) =~= chars@.skip(2));
        return join(home, rest.as_str());
    }
    assert(!seq!['~', '/'].is_prefix_of(chars@)) by {
        if seq!['~', '/'].is_prefix_of(chars@) {
            assert(chars@.subrange(0, 2)[0] == '~');
            assert(chars@.subrange(0, 2)[1] == '/');
        }
    }
    input.to_string()
}

/// The segments of `path` below `root`, when the segments of `root` are
/// the first segments of `path`.
pub open spec fn relative_segments(root: Seq<char>, path: Seq<char>) -> Option<Seq<Seq<char>>> {
    let r = segments(root);
    let p = segments(path);
    if r.is_prefix_of(p) {
        Some(p.skip(r.len() as int))
    } else {
        None
    }
}

/// Whether the texts of `prefix` are the first texts of `all`.
pub fn leads(prefix: &Vec<String>, all: &Vec<String>) -> (b: bool)
    ensures
        b == views(prefix@).is_prefix_of(views(all@)),
{
    if prefix.len() > all.len() {
        return false;
    }
    let mut i: usize = 0;
    while i < prefix.len()
        invariant
            i <= prefix.len() <= all.len(),
            forall|k: int| 0 <= k < i ==> prefix@[k]@ == all@[k]@,
        decreases prefix.len() - i,
    {
        if prefix[i] != all[i] {
            assert(views(all@).subrange(0, prefix@.len() as int)[i as int] == all@[i as int]@);
            assert(views(prefix@)[i as int] == prefix@[i as int]@);
            return false;
        }
        i += 1;
    }
    assert(views(prefix@) =~= views(all@).subrange(0, prefix@.len() as int));
    true
}

} // verus!
