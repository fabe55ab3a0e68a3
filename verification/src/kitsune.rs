//! The live-wallpaper helper: what its help text says it can do, and what a
//! run of it amounts to.

use crate::invoker::{
    failure_message, failure_text, missing_message, missing_tool_message, OutputView,
    SpawnResult, SpawnView,
};
use crate::order::{ascending, sorted_distinct};
use crate::resolver::ToolIdentity;
use crate::text::{
    chars_of, lemma_views_push, lines, lines_of, opt_view, same_text, split_whitespace,
    string_of, trim, trimmed, views, words,
};
use vstd::prelude::*;

verus! {

/// Whether a line starts with two blanks.
pub open spec fn indented(line: Seq<char>) -> bool {
    line.len() >= 2 && line[0] == ' ' && line[1] == ' '
}

/// `s` without the colons at its end.
pub open spec fn without_colons(s: Seq<char>) -> Seq<char>
    decreases s.len(),
{
    if s.len() > 0 && s.last() == ':' {
        without_colons(s.drop_last())
    } else {
        s
    }
}

/// What one line of the help text says.
pub enum HelpLine {
    /// The heading of a section.
    Section(Seq<char>),
    /// A command of the helper.
    Command(Seq<char>),
    /// Nothing of interest.
    Other,
}

/// Reads one line of the help text. An indented line names a command by its
/// first word, unless that word is the helper's own name. A line that is
/// not indented and ends in a colon is the heading of a section; the
/// section's name is the line without the white space around it and the
/// colons at its end.
pub open spec fn read_line(line: Seq<char>) -> HelpLine {
    let text = trimmed(line);
    if text.len() == 0 {
        HelpLine::Other
    } else if indented(line) {
        let first = words(text);
        if first.len() == 0 || first[0] == "kitsune"@ {
            HelpLine::Other
        } else {
            HelpLine::Command(first[0])
        }
    } else if text.last() == ':' {
        HelpLine::Section(without_colons(text))
    } else {
        HelpLine::Other
    }
}

/// The sections that `lines` head, in order, repeated as often as headed.
pub open spec fn sections_in(lines: Seq<Seq<char>>) -> Seq<Seq<char>>
    decreases lines.len(),
{
    if lines.len() == 0 {
        Seq::empty()
    } else {
        let before = sections_in(lines.drop_last());
        match read_line(lines.last()) {
            HelpLine::Section(name) => before.push(name),
            _ => before,
        }
    }
}

/// The commands that `lines` name, in order, repeated as often as named.
pub open spec fn commands_in(lines: Seq<Seq<char>>) -> Seq<Seq<char>>
    decreases lines.len(),
{
    if lines.len() == 0 {
        Seq::empty()
    } else {
        let before = commands_in(lines.drop_last());
        match read_line(lines.last()) {
            HelpLine::Command(name) => before.push(name),
            _ => before,
        }
    }
}

/// What one line says, for the caller: a section, a command, or neither.
enum Said {
    Section(String),
    Command(String),
    Other,
}

fn strip_colons(text: &str) -> (out: String)
    ensures
        out@ == without_colons(text@),
{
    let chars = chars_of(text);
    let mut end: usize = chars.len();
    assert(chars@.take(end as int) =~= chars@);
    while end > 0 && chars[end - 1] == ':'
        invariant
            end <= chars.len(),
            without_colons(chars@) == without_colons(chars@.take(end as int)),
        decreases end,
    {
        assert(chars@.take(end as int).last() == chars@[end - 1]);
        assert(chars@.take(end as int).drop_last() =~= chars@.take(end - 1));
        end -= 1;
    }
    proof {
        if end > 0 {
            assert(chars@.take(end as int).last() == chars@[end - 1]);
        }
        assert(chars@.subrange(0, end as int) =~= chars@.take(end as int));
    }
    string_of(&chars, 0, end)
}

fn read_help_line(line: &str) -> (said: Said)
    ensures
        match said {
            Said::Section(name) => read_line(line@) == HelpLine::Section(name@),
            Said::Command(name) => read_line(line@) == HelpLine::Command(name@),
            Said::Other => read_line(line@) == HelpLine::Other,
        },
{
    let text = trim(line);
    let text_chars = chars_of(text.as_str());
    if text_chars.len() == 0 {
        return Said::Other;
    }
    let line_chars = chars_of(line);
    let is_indented = line_chars.len() >= 2 && line_chars[0] == ' ' && line_chars[1] == ' ';
    if is_indented {
        let mut first = split_whitespace(text.as_str());
        if first.len() == 0 {
            return Said::Other;
        }
        assert(views(first@)[0] == first@[0]@);
        let name = first.swap_remove(0);
        if same_text(name.as_str(), "kitsune") {
            Said::Other
        } else {
            Said::Command(name)
        }
    } else if text_chars[text_chars.len() - 1] == ':' {
        Said::Section(strip_colons(text.as_str()))
    } else {
        Said::Other
    }
}

/// What the helper can do.
#[derive(Debug, PartialEq, Eq)]
pub struct KitsuneStatus {
    /// Whether the helper is there and answered.
    pub installed: bool,
    /// Why it is not, when it is not.
    pub error: Option<String>,
    /// The helper's commands, in ascending order, each once.
    pub commands: Vec<String>,
    /// The sections of its help text, in ascending order, each once.
    pub sections: Vec<String>,
}

/// `list` holds the texts of `names` in ascending order, each once.
pub open spec fn is_index_of(list: Seq<Seq<char>>, names: Seq<Seq<char>>) -> bool {
    &&& ascending(list)
    &&& list.no_duplicates()
    &&& forall|x: Seq<char>| list.contains(x) == names.contains(x)
}

/// `status` tells what the help text `help` says.
pub open spec fn tells(status: KitsuneStatus, help: Seq<char>) -> bool {
    &&& status.installed
    &&& status.error is None
    &&& is_index_of(views(status.commands@), commands_in(lines_of(help)))
    &&& is_index_of(views(status.sections@), sections_in(lines_of(help)))
}

/// `status` tells that the helper is not there or did not answer, and why.
pub open spec fn tells_absence(status: KitsuneStatus, why: Seq<char>) -> bool {
    &&& !status.installed
    &&& opt_view(status.error) == Some(why)
    &&& status.commands.len() == 0
    &&& status.sections.len() == 0
}

/// Reads the helper's help text.
pub fn read_help(help: &str) -> (status: KitsuneStatus)
    ensures
        tells(status, help@),
{
    let all = lines(help);
    let mut commands: Vec<String> = Vec::new();
    let mut sections: Vec<String> = Vec::new();
    let mut i: usize = 0;
    assert(views(all@).take(0) =~= Seq::<Seq<char>>::empty());
    assert(views(commands@) =~= Seq::<Seq<char>>::empty());
    assert(views(sections@) =~= Seq::<Seq<char>>::empty());
    while i < all.len()
        invariant
            i <= all.len(),
            views(commands@) == commands_in(views(all@).take(i as int)),
            views(sections@) == sections_in(views(all@).take(i as int)),
        decreases all.len() - i,
    {
        proof {
            assert(views(all@).take(i + 1).drop_last() =~= views(all@).take(i as int));
            assert(views(all@).take(i + 1).last() == all@[i as int]@);
        }
        match read_help_line(all[i].as_str()) {
            Said::Section(name) => {
                proof {
                    lemma_views_push(sections@, name);
                }
                sections.push(name);
            },
            Said::Command(name) => {
                proof {
                    lemma_views_push(commands@, name);
                }
                commands.push(name);
            },
            Said::Other => {},
        }
        i += 1;
    }
    assert(views(all@).take(all@.len() as int) =~= views(all@));
    KitsuneStatus {
        installed: true,
        error: None,
        commands: sorted_distinct(&commands),
        sections: sorted_distinct(&sections),
    }
}

fn absence(why: String) -> (status: KitsuneStatus)
    ensures
        tells_absence(status, why@),
{
    KitsuneStatus { installed: false, error: Some(why), commands: Vec::new(), sections: Vec::new() }
}

/// The status to report for a helper that nothing can run.
pub fn kitsune_missing(tool: &ToolIdentity) -> (status: KitsuneStatus)
    ensures
        tells_absence(status, missing_message(tool@)),
{
    absence(missing_tool_message(tool))
}

/// Why a helper that failed to print its help is held to be absent: what it
/// had to say, or that it said nothing.
pub open spec fn help_failure(out: OutputView) -> Seq<char> {
    if failure_text(out).len() == 0 {
        "kitsune help failed"@
    } else {
        failure_text(out)
    }
}

/// The helper's status, from what became of the process that asked for its
/// help text. A process that could not be started is an error of the call;
/// one that ran and failed means that the helper is not installed.
pub fn kitsune_status(result: &SpawnResult) -> (r: Result<KitsuneStatus, String>)
    ensures
        match (r, result@) {
            (Err(why), SpawnView::NotStarted(reason)) => why@ == reason,
            (Ok(status), SpawnView::Exited(out)) => if out.left_well() {
                tells(status, out.stdout)
            } else {
                tells_absence(status, help_failure(out))
            },
            _ => false,
        },
{
    match result {
        SpawnResult::NotStarted(why) => Err(why.clone()),
        SpawnResult::Exited(out) => {
            if out.left_well() {
                Ok(read_help(out.stdout.as_str()))
            } else {
                let said = failure_message(out);
                if said.as_str().unicode_len() == 0 {
                    Ok(absence("kitsune help failed".to_string()))
                } else {
                    Ok(absence(said))
                }
            }
        },
    }
}

/// What a run of the helper left behind.
#[derive(Debug, PartialEq, Eq)]
pub struct KitsuneRun {
    /// Whether the helper left with exit code 0.
    pub ok: bool,
    /// The exit code, -1 when the helper was ended by a signal.
    pub exit_code: i32,
    pub stdout: String,
    pub stderr: String,
}

/// The exit code to report.
pub open spec fn reported_code(code: Option<i32>) -> i32 {
    match code {
        Some(c) => c,
        None => -1i32,
    }
}

/// Says whether the helper can be run with `args`: it needs at least one.
pub fn check_run_args(args: &Vec<String>) -> (r: Result<(), String>)
    ensures
        match r {
            Ok(_) => args.len() > 0,
            Err(why) => args.len() == 0 && why@ == "kitsune args are required"@,
        },
{
    if args.len() == 0 {
        Err("kitsune args are required".to_string())
    } else {
        Ok(())
    }
}

/// What a run of the helper amounts to, from what became of its process.
pub fn kitsune_run(result: SpawnResult) -> (r: Result<KitsuneRun, String>)
    ensures
        match (r, result@) {
            (Err(why), SpawnView::NotStarted(reason)) => why@ == reason,
            (Ok(run), SpawnView::Exited(out)) => {
                &&& run.ok == out.left_well()
                &&& run.exit_code == reported_code(out.exit_code)
                &&& run.stdout@ == out.stdout
                &&& run.stderr@ == out.stderr
            },
            _ => false,
        },
{
    match result {
        SpawnResult::NotStarted(why) => Err(why),
        SpawnResult::Exited(out) => {
            let exit_code = match out.exit_code {
                Some(code) => code,
                None => -1i32,
            };
            Ok(KitsuneRun { ok: out.left_well(), exit_code, stdout: out.stdout, stderr: out.stderr })
        },
    }
}

} // verus!
