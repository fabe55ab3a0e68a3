//! The folders of the packs below the download folder: listing them, and
//! finding the one that belongs to a pack.

use crate::args::push_arg;
use crate::command::{host_aware, host_aware_command, CommandLine, CommandView};
use crate::environment::EnvKind;
use crate::order::{ascending, sort_texts};
use crate::path::{join, joined};
use crate::text::{chars_of, trim, trimmed, views};
use vstd::prelude::*;
use vstd::string::StringExecFns;

verus! {

/// The names of the pack folders in ascending order. `names` are the names
/// of the folders found in the download folder.
pub fn list_pack_folders(names: Vec<String>) -> (out: Vec<String>)
    ensures
        ascending(views(out@)),
        views(out@).to_multiset() == views(names@).to_multiset(),
{
    let mut out = names;
    sort_texts(&mut out);
    out
}

/// What `str::to_lowercase` makes of a text: its lower-case form as
/// Unicode defines it, which may differ in length from the text.
pub uninterp spec fn lowercase_of(s: Seq<char>) -> Seq<char>;

/// Calls `str::to_lowercase`.
#[verifier::external_body]
fn lowercase(s: &str) -> (out: String)
    ensures
        out@ == lowercase_of(s@),
{
    s.to_lowercase()
}

/// `s` with a hyphen in place of every blank and every underscore.
pub open spec fn hyphened(s: Seq<char>) -> Seq<char> {
    Seq::new(
        s.len(),
        |i: int|
            if s[i] == ' ' || s[i] == '_' {
                '-'
            } else {
                s[i]
            },
    )
}

/// Puts a hyphen in place of every blank and every underscore.
pub fn hyphenate(s: &str) -> (out: String)
    ensures
        out@ == hyphened(s@),
{
    let chars = chars_of(s);
    let mut out = String::new();
    let mut i: usize = 0;
    while i < chars.len()
        invariant
            i <= chars.len(),
            out@ == hyphened(chars@.take(i as int)),
        decreases chars.len() - i,
    {
        let c = chars[i];
        if c == ' ' || c == '_' {
            out.push('-');
        } else {
            out.push(c);
        }
        assert(out@ =~= hyphened(chars@.take(i + 1)));
        i += 1;
    }
    assert(chars@.take(chars@.len() as int) =~= chars@);
    out
}

/// The form under which folder names are compared: lower case, with
/// hyphens for blanks and underscores.
pub open spec fn folded(name: Seq<char>) -> Seq<char> {
    hyphened(lowercase_of(name))
}

/// The form under which `name` is compared.
pub fn fold_name(name: &str) -> (out: String)
    ensures
        out@ == folded(name@),
{
    let lower = lowercase(name);
    hyphenate(lower.as_str())
}

/// How many of `folders` come before the first whose folded name is
/// `wanted`.
pub open spec fn misses_before(folders: Seq<Seq<char>>, wanted: Seq<char>) -> nat
    decreases folders.len(),
{
    if folders.len() == 0 || folded(folders[0]) == wanted {
        0
    } else {
        1 + misses_before(folders.drop_first(), wanted)
    }
}

/// The folder of the pack `name` below `root`: the first of `folders` that
/// has the pack's name when case, blanks, underscores and hyphens are not
/// told apart and the white space around the pack's name is ignored; a
/// folder named exactly like the pack when there is none such.
pub open spec fn pack_folder_of(root: Seq<char>, folders: Seq<Seq<char>>, name: Seq<char>) -> Seq<
    char,
> {
    let at = misses_before(folders, folded(trimmed(name))) as int;
    if at < folders.len() {
        joined(root, folders[at])
    } else {
        joined(root, name)
    }
}

/// The folder to open for the pack `name`. `folders` are the names of the
/// folders found in `root`, in the order found.
pub fn pack_folder(root: &str, folders: &Vec<String>, name: &str) -> (out: String)
    ensures
        out@ == pack_folder_of(root@, views(folders@), name@),
{
    let clean = trim(name);
    let wanted = fold_name(clean.as_str());
    let ghost all = views(folders@);
    let mut i: usize = 0;
    assert(all.skip(0) =~= all);
    while i < folders.len()
        invariant
            i <= folders.len(),
            all == views(folders@),
            wanted@ == folded(trimmed(name@)),
            misses_before(all, wanted@) == i + misses_before(all.skip(i as int), wanted@),
        decreases folders.len() - i,
    {
        assert(all.skip(i as int)[0] == folders@[i as int]@);
        if fold_name(folders[i].as_str()) == wanted {
            return join(root, folders[i].as_str());
        }
        assert(all.skip(i as int).drop_first() =~= all.skip(i + 1));
        i += 1;
    }
    join(root, name)
}

/// The command that opens `path` in the desktop's file manager.
pub open spec fn open_command(kind: EnvKind, path: Seq<char>) -> CommandView {
    let start = host_aware(kind, "xdg-open"@);
    CommandView { program: start.program, args: start.args + seq![path] }
}

/// The command that opens a folder.
pub fn open_folder_command(kind: EnvKind, path: &str) -> (cmd: CommandLine)
    ensures
        cmd@ == open_command(kind, path@),
{
    let mut cmd = host_aware_command(kind, "xdg-open");
    push_arg(&mut cmd.args, path);
    cmd
}

/// What to say when the download folder is not there.
pub fn root_missing_message(root: &str) -> (out: String)
    ensures
        out@ == "Wallpaper root not found: "@ + root@,
{
    let mut out = "Wallpaper root not found: ".to_string();
    out.append(root);
    out
}

/// What to say when the pack's folder is not there.
pub fn folder_missing_message(path: &str) -> (out: String)
    ensures
        out@ == "Pack folder not found: "@ + path@,
{
    let mut out = "Pack folder not found: ".to_string();
    out.append(path);
    out
}

} // verus!
