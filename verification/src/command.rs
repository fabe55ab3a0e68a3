//! Command lines: a program and its arguments, and how one is started from
//! inside the sandbox.

use crate::environment::EnvKind;
use crate::text::{lemma_views_push, views};
use vstd::prelude::*;
use vstd::string::StringExecFns;

verus! {

/// A program and the arguments to start it with.
#[derive(Debug, PartialEq, Eq)]
pub struct CommandLine {
    pub program: String,
    pub args: Vec<String>,
}

/// A command line as texts.
pub struct CommandView {
    pub program: Seq<char>,
    pub args: Seq<Seq<char>>,
}

impl View for CommandLine {
    type V = CommandView;

    open spec fn view(&self) -> CommandView {
        CommandView { program: self.program@, args: views(self.args@) }
    }
}

/// How the program `base` is started: directly, or inside the sandbox as
/// `flatpak-spawn --host base`.
pub open spec fn host_aware(kind: EnvKind, base: Seq<char>) -> CommandView {
    match kind {
        EnvKind::Sandboxed => CommandView { program: "flatpak-spawn"@, args: seq!["--host"@, base] },
        EnvKind::Native => CommandView { program: base, args: Seq::empty() },
    }
}

/// The start of the command line for the host program `base`.
pub fn host_aware_command(kind: EnvKind, base: &str) -> (cmd: CommandLine)
    ensures
        cmd@ == host_aware(kind, base@),
{
    let mut args: Vec<String> = Vec::new();
    match kind {
        EnvKind::Sandboxed => {
            args.push("--host".to_string());
            args.push(base.to_string());
            assert(views(args@) =~= seq!["--host"@, base@]);
            CommandLine { program: "flatpak-spawn".to_string(), args }
        },
        EnvKind::Native => {
            assert(views(args@) =~= Seq::<Seq<char>>::empty());
            CommandLine { program: base.to_string(), args }
        },
    }
}

/// `texts` with the texts of `more` after them.
pub fn append_all(texts: &mut Vec<String>, more: &Vec<String>, from: usize)
    requires
        from <= more.len(),
    ensures
        views(final(texts)@) == views(old(texts)@) + views(more@).skip(from as int),
{
    let ghost before = views(texts@);
    let mut i: usize = from;
    assert(before + views(more@).subrange(from as int, from as int) =~= before);
    while i < more.len()
        invariant
            from <= i <= more.len(),
            views(texts@) == before + views(more@).subrange(from as int, i as int),
        decreases more.len() - i,
    {
        let next = more[i].clone();
        proof {
            lemma_views_push(texts@, next);
            assert(views(more@)[i as int] == more@[i as int]@);
            assert(before + views(more@).subrange(from as int, i + 1) =~= (before + views(
                more@,
            ).subrange(from as int, i as int)).push(next@));
        }
        texts.push(next);
        i += 1;
    }
    assert(views(more@).subrange(from as int, more@.len() as int) =~= views(more@).skip(
        from as int,
    ));
}

/// The shell script that prints where the first of `names` that the host
/// has is installed, and nothing when it has none of them.
pub open spec fn lookup_script(names: Seq<Seq<char>>) -> Seq<char>
    decreases names.len(),
{
    if names.len() == 0 {
        "true"@
    } else {
        "command -v "@ + names[0] + " || "@ + lookup_script(names.drop_first())
    }
}

/// The script of [`lookup_script`] for the names from `from` on.
fn script_from(names: &Vec<String>, from: usize) -> (out: String)
    requires
        from <= names.len(),
    ensures
        out@ == lookup_script(views(names@).skip(from as int)),
    decreases names.len() - from,
{
    let ghost rest = views(names@).skip(from as int);
    if from == names.len() {
        "true".to_string()
    } else {
        let tail = script_from(names, from + 1);
        let mut out = "command -v ".to_string();
        out.append(names[from].as_str());
        out.append(" || ");
        out.append(tail.as_str());
        proof {
            assert(rest[0] == names@[from as int]@);
            assert(rest.drop_first() =~= views(names@).skip(from + 1));
        }
        out
    }
}

/// The command that looks programs up on the host's `PATH` from inside
/// the sandbox.
pub open spec fn lookup_command(names: Seq<Seq<char>>) -> CommandView {
    CommandView {
        program: "flatpak-spawn"@,
        args: seq!["--host"@, "sh"@, "-lc"@, lookup_script(names)],
    }
}

/// The command that asks the host where one of `names` is installed.
pub fn host_lookup(names: &Vec<String>) -> (cmd: CommandLine)
    ensures
        cmd@ == lookup_command(views(names@)),
{
    let script = script_from(names, 0);
    assert(views(names@).skip(0) =~= views(names@));
    let mut args: Vec<String> = Vec::new();
    args.push("--host".to_string());
    args.push("sh".to_string());
    args.push("-lc".to_string());
    args.push(script);
    assert(views(args@) =~= seq!["--host"@, "sh"@, "-lc"@, script@]);
    CommandLine { program: "flatpak-spawn".to_string(), args }
}

} // verus!
