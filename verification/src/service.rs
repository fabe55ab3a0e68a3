//! Asking the service manager about the units that change the wallpaper on
//! a schedule, and reading its answer: lines of `KEY=VALUE`.

use crate::args::{push_arg, push_pair};
use crate::command::{host_aware, host_aware_command, CommandLine, CommandView};
use crate::environment::EnvKind;
use crate::invoker::{SpawnResult, SpawnView};
use crate::text::{
    lemma_views_push, lines, lines_of, split_at_first, split_once, trim, trimmed, views,
};
use vstd::prelude::*;
use vstd::string::StringExecFns;

verus! {

/// `-p` and a property, for each of `props`.
pub open spec fn property_flags(props: Seq<Seq<char>>) -> Seq<Seq<char>>
    decreases props.len(),
{
    if props.len() == 0 {
        Seq::empty()
    } else {
        property_flags(props.drop_last()) + seq!["-p"@, props.last()]
    }
}

/// The command that shows the properties `props` of the user unit `unit`.
pub open spec fn show_command(kind: EnvKind, unit: Seq<char>, props: Seq<Seq<char>>) -> CommandView {
    let start = host_aware(kind, "systemctl"@);
    CommandView {
        program: start.program,
        args: start.args + seq!["--user"@, "show"@, unit, "--no-pager"@] + property_flags(props),
    }
}

/// The command that asks the service manager for properties of a unit.
pub fn systemctl_command(kind: EnvKind, unit: &str, props: &Vec<String>) -> (cmd: CommandLine)
    ensures
        cmd@ == show_command(kind, unit@, views(props@)),
{
    let mut cmd = host_aware_command(kind, "systemctl");
    let ghost start = views(cmd.args@);
    push_arg(&mut cmd.args, "--user");
    push_arg(&mut cmd.args, "show");
    push_arg(&mut cmd.args, unit);
    push_arg(&mut cmd.args, "--no-pager");
    let ghost fixed = start + seq!["--user"@, "show"@, unit@, "--no-pager"@];
    assert(views(cmd.args@) =~= fixed);
    let mut i: usize = 0;
    assert(views(props@).take(0) =~= Seq::<Seq<char>>::empty());
    assert(fixed + property_flags(views(props@).take(0)) =~= fixed);
    while i < props.len()
        invariant
            i <= props.len(),
            cmd.program@ == host_aware(kind, "systemctl"@).program,
            views(cmd.args@) == fixed + property_flags(views(props@).take(i as int)),
        decreases props.len() - i,
    {
        proof {
            assert(views(props@).take(i + 1).drop_last() =~= views(props@).take(i as int));
            assert(views(props@).take(i + 1).last() == props@[i as int]@);
        }
        let ghost before = property_flags(views(props@).take(i as int));
        push_pair(&mut cmd.args, "-p", props[i].clone());
        assert(views(cmd.args@) =~= fixed + (before + seq!["-p"@, props@[i as int]@]));
        i += 1;
    }
    assert(views(props@).take(props@.len() as int) =~= views(props@));
    cmd
}

/// A property of a unit.
#[derive(Debug, PartialEq, Eq)]
pub struct Property {
    pub key: String,
    pub value: String,
}

impl View for Property {
    type V = (Seq<char>, Seq<char>);

    open spec fn view(&self) -> (Seq<char>, Seq<char>) {
        (self.key@, self.value@)
    }
}

/// The properties that `lines` give, in order: every line with a `=` gives
/// one, its key before the first `=` and its value after; other lines give
/// none.
pub open spec fn properties_of(lines: Seq<Seq<char>>) -> Seq<(Seq<char>, Seq<char>)>
    decreases lines.len(),
{
    if lines.len() == 0 {
        Seq::empty()
    } else {
        let before = properties_of(lines.drop_last());
        match split_at_first(lines.last(), '=') {
            Some(pair) => before.push(pair),
            None => before,
        }
    }
}

/// Properties as a mapping from keys to values; of several with one key
/// the last counts.
pub open spec fn as_mapping(props: Seq<(Seq<char>, Seq<char>)>) -> Map<Seq<char>, Seq<char>>
    decreases props.len(),
{
    if props.len() == 0 {
        Map::empty()
    } else {
        as_mapping(props.drop_last()).insert(props.last().0, props.last().1)
    }
}

/// Reads the service manager's answer.
pub fn read_properties(text: &str) -> (out: Vec<Property>)
    ensures
        views(out@) == properties_of(lines_of(text@)),
{
    let all = lines(text);
    let mut out: Vec<Property> = Vec::new();
    let mut i: usize = 0;
    assert(views(all@).take(0) =~= Seq::<Seq<char>>::empty());
    assert(views(out@) =~= Seq::<(Seq<char>, Seq<char>)>::empty());
    while i < all.len()
        invariant
            i <= all.len(),
            views(out@) == properties_of(views(all@).take(i as int)),
        decreases all.len() - i,
    {
        proof {
            assert(views(all@).take(i + 1).drop_last() =~= views(all@).take(i as int));
            assert(views(all@).take(i + 1).last() == all@[i as int]@);
        }
        match split_once(all[i].as_str(), '=') {
            Some((key, value)) => {
                let p = Property { key, value };
                proof {
                    lemma_views_push(out@, p);
                }
                out.push(p);
            },
            None => {},
        }
        i += 1;
    }
    assert(views(all@).take(all@.len() as int) =~= views(all@));
    out
}

/// The value that `props` give for `key`.
pub fn property<'a>(props: &'a Vec<Property>, key: &str) -> (r: Option<&'a String>)
    ensures
        match r {
            Some(value) => as_mapping(views(props@)).contains_key(key@) && as_mapping(
                views(props@),
            )[key@] == value@,
            None => !as_mapping(views(props@)).contains_key(key@),
        },
{
    let wanted = key.to_string();
    let ghost all = views(props@);
    let mut i: usize = props.len();
    assert(all.take(all.len() as int) =~= all);
    while i > 0
        invariant
            i <= props.len(),
            all == views(props@),
            wanted@ == key@,
            as_mapping(all).contains_key(key@) == as_mapping(all.take(i as int)).contains_key(
                key@,
            ),
            as_mapping(all).contains_key(key@) ==> as_mapping(all)[key@] == as_mapping(
                all.take(i as int),
            )[key@],
        decreases i,
    {
        proof {
            assert(all.take(i as int).drop_last() =~= all.take(i - 1));
            assert(all.take(i as int).last() == props@[i - 1]@);
        }
        i -= 1;
        if props[i].key == wanted {
            return Some(&props[i].value);
        }
    }
    assert(all.take(0) =~= Seq::<(Seq<char>, Seq<char>)>::empty());
    None
}

/// What the service manager's answer amounts to: the properties it printed
/// when it left with exit code 0, else what it wrote to its error stream;
/// and why it could not be asked, when it could not be started.
pub open spec fn shown(result: SpawnView) -> Result<Seq<(Seq<char>, Seq<char>)>, Seq<char>> {
    match result {
        SpawnView::Exited(out) => if out.left_well() {
            Ok(properties_of(lines_of(out.stdout)))
        } else {
            Err(trimmed(out.stderr))
        },
        SpawnView::NotStarted(why) => Err("systemctl error: "@ + why),
    }
}

/// The properties of a unit, from what became of the process that asked
/// for them.
pub fn systemctl_show(result: &SpawnResult) -> (r: Result<Vec<Property>, String>)
    ensures
        match r {
            Ok(props) => shown(result@) == Ok::<Seq<(Seq<char>, Seq<char>)>, Seq<char>>(
                views(props@),
            ),
            Err(why) => shown(result@) == Err::<Seq<(Seq<char>, Seq<char>)>, Seq<char>>(why@),
        },
{
    match result {
        SpawnResult::Exited(out) => {
            if out.left_well() {
                Ok(read_properties(out.stdout.as_str()))
            } else {
                Err(trim(out.stderr.as_str()))
            }
        },
        SpawnResult::NotStarted(why) => {
            let mut message = "systemctl error: ".to_string();
            message.append(why.as_str());
            Err(message)
        },
    }
}

/// The unit that triggers the change of wallpaper, and what to ask of it.
pub fn timer_query() -> (q: (String, Vec<String>))
    ensures
        q.0@ == "kitowall-next.timer"@,
        views(q.1@) == seq![
            "Id"@,
            "UnitFileState"@,
            "ActiveState"@,
            "SubState"@,
            "NextElapseUSecRealtime"@,
            "LastTriggerUSec"@,
        ],
{
    let mut props: Vec<String> = Vec::new();
    props.push("Id".to_string());
    props.push("UnitFileState".to_string());
    props.push("ActiveState".to_string());
    props.push("SubState".to_string());
    props.push("NextElapseUSecRealtime".to_string());
    props.push("LastTriggerUSec".to_string());
    assert(views(props@) =~= seq![
        "Id"@,
        "UnitFileState"@,
        "ActiveState"@,
        "SubState"@,
        "NextElapseUSecRealtime"@,
        "LastTriggerUSec"@,
    ]);
    ("kitowall-next.timer".to_string(), props)
}

/// The unit that changes the wallpaper, and what to ask of it.
pub fn service_query() -> (q: (String, Vec<String>))
    ensures
        q.0@ == "kitowall-next.service"@,
        views(q.1@) == seq!["Id"@, "UnitFileState"@, "ActiveState"@, "SubState"@],
{
    let mut props: Vec<String> = Vec::new();
    props.push("Id".to_string());
    props.push("UnitFileState".to_string());
    props.push("ActiveState".to_string());
    props.push("SubState".to_string());
    assert(views(props@) =~= seq!["Id"@, "UnitFileState"@, "ActiveState"@, "SubState"@]);
    ("kitowall-next.service".to_string(), props)
}

} // verus!
