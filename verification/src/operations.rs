//! The requests that the desktop shell passes on to the wallpaper manager,
//! and the argument list that each one becomes.

use crate::args::{
    flag_as_is, flag_if, flag_number, flag_text, push_arg, push_flag_as_is, push_flag_if,
    push_flag_number, push_flag_text, push_pair,
};
use crate::text::{blank, decimal, decimal_of, is_blank, opt_view, trim, trimmed, views};
use vstd::prelude::*;

verus! {

/// One request to the wallpaper manager.
#[derive(Debug, PartialEq, Eq)]
pub enum Operation {
    Check { namespace: Option<String> },
    Status,
    Next { namespace: Option<String>, force: Option<bool>, pack: Option<String> },
    InitApply { namespace: Option<String> },
    HydratePack { name: String, count: u32 },
    CachePrune,
    CachePrunePack { name: String },
    ListPacks,
    SettingsGet,
    /// The two transition values are numbers with a fraction; they are
    /// given as the caller has written them out.
    SettingsSet {
        mode: Option<String>,
        rotation_interval_sec: Option<u32>,
        transition_type: Option<String>,
        transition_fps: Option<u32>,
        transition_duration: Option<String>,
        transition_angle: Option<String>,
        transition_pos: Option<String>,
    },
    HistoryList { limit: Option<u32> },
    HistoryClear,
    FavoritesList,
    FavoriteAdd { path: String },
    FavoriteRemove { path: String },
    Logs {
        limit: Option<u32>,
        source: Option<String>,
        pack: Option<String>,
        level: Option<String>,
        q: Option<String>,
    },
    LogsClear,
    InstallTimer { every: String },
    PackList,
    PackRemove { name: String },
    PackSetKey { name: String, api_key: String },
    PackSetKeyEnv { name: String, variable: String },
}

/// The namespace to use: the one given, else `kitowall`.
pub open spec fn namespace_or_default(namespace: Option<Seq<char>>) -> Seq<char> {
    match namespace {
        Some(ns) => ns,
        None => "kitowall"@,
    }
}

/// `--pack` and the pack as given, unless none is given or it is blank.
pub open spec fn pack_choice(pack: Option<Seq<char>>) -> Seq<Seq<char>> {
    match pack {
        Some(name) => if is_blank(name) {
            Seq::empty()
        } else {
            seq!["--pack"@, name]
        },
        None => Seq::empty(),
    }
}

/// The argument list of a request, or why the request cannot be made.
pub open spec fn args_of(op: Operation) -> Result<Seq<Seq<char>>, Seq<char>> {
    match op {
        Operation::Check { namespace } => Ok(
            seq!["check"@, "--namespace"@, namespace_or_default(opt_view(namespace)), "--json"@],
        ),
        Operation::Status => Ok(seq!["status"@]),
        Operation::Next { namespace, force, pack } => Ok(
            seq!["next"@, "--namespace"@, namespace_or_default(opt_view(namespace)), "--json"@]
                + flag_if("--force"@, force == Some(true)) + pack_choice(opt_view(pack)),
        ),
        Operation::InitApply { namespace } => Ok(
            seq![
                "init"@,
                "--namespace"@,
                namespace_or_default(opt_view(namespace)),
                "--apply"@,
                "--force"@,
                "--json"@,
            ],
        ),
        Operation::HydratePack { name, count } => Ok(
            seq!["hydrate-pack"@, name@, "--count"@, decimal_of(count as nat)],
        ),
        Operation::CachePrune => Ok(seq!["cache-prune-hard"@]),
        Operation::CachePrunePack { name } => Ok(seq!["cache-prune-pack-hard"@, name@]),
        Operation::ListPacks => Ok(seq!["list-packs"@]),
        Operation::SettingsGet => Ok(seq!["settings"@, "get"@]),
        Operation::SettingsSet {
            mode,
            rotation_interval_sec,
            transition_type,
            transition_fps,
            transition_duration,
            transition_angle,
            transition_pos,
        } => Ok(
            seq!["settings"@, "set"@] + flag_as_is("--mode"@, opt_view(mode)) + flag_number(
                "--rotation-interval-sec"@,
                rotation_interval_sec,
            ) + flag_as_is("--transition-type"@, opt_view(transition_type)) + flag_number(
                "--transition-fps"@,
                transition_fps,
            ) + flag_as_is("--transition-duration"@, opt_view(transition_duration)) + flag_as_is(
                "--transition-angle"@,
                opt_view(transition_angle),
            ) + flag_as_is("--transition-pos"@, opt_view(transition_pos)),
        ),
        Operation::HistoryList { limit } => Ok(seq!["history"@] + flag_number("--limit"@, limit)),
        Operation::HistoryClear => Ok(seq!["history"@, "clear"@]),
        Operation::FavoritesList => Ok(seq!["favorites"@]),
        Operation::FavoriteAdd { path } => Ok(seq!["favorite"@, "add"@, path@]),
        Operation::FavoriteRemove { path } => Ok(seq!["favorite"@, "remove"@, path@]),
        Operation::Logs { limit, source, pack, level, q } => Ok(
            seq!["logs"@] + flag_number("--limit"@, limit) + flag_text(
                "--source"@,
                opt_view(source),
            ) + flag_text("--pack"@, opt_view(pack)) + flag_text("--level"@, opt_view(level))
                + flag_text("--q"@, opt_view(q)),
        ),
        Operation::LogsClear => Ok(seq!["logs"@, "clear"@]),
        Operation::InstallTimer { every } => if is_blank(every@) {
            Err("every is required"@)
        } else {
            Ok(seq!["install-systemd"@, "--every"@, trimmed(every@)])
        },
        Operation::PackList => Ok(seq!["pack"@, "list"@]),
        Operation::PackRemove { name } => Ok(seq!["pack"@, "remove"@, name@]),
        Operation::PackSetKey { name, api_key } => Ok(
            seq!["pack"@, "set-key"@, name@, "--api-key"@, api_key@],
        ),
        Operation::PackSetKeyEnv { name, variable } => Ok(
            seq!["pack"@, "set-key"@, name@, "--api-key-env"@, variable@],
        ),
    }
}

/// The view of an argument list or an error.
pub open spec fn args_view(r: Result<Vec<String>, String>) -> Result<Seq<Seq<char>>, Seq<char>> {
    match r {
        Ok(args) => Ok(views(args@)),
        Err(why) => Err(why@),
    }
}

fn namespace_text(namespace: &Option<String>) -> (out: String)
    ensures
        out@ == namespace_or_default(opt_view(*namespace)),
{
    match namespace {
        Some(ns) => ns.clone(),
        None => "kitowall".to_string(),
    }
}

fn fixed1(a: &str) -> (out: Vec<String>)
    ensures
        views(out@) == seq![a@],
{
    let mut out: Vec<String> = Vec::new();
    out.push(a.to_string());
    assert(views(out@) =~= seq![a@]);
    out
}

fn fixed2(a: &str, b: &str) -> (out: Vec<String>)
    ensures
        views(out@) == seq![a@, b@],
{
    let mut out: Vec<String> = Vec::new();
    out.push(a.to_string());
    out.push(b.to_string());
    assert(views(out@) =~= seq![a@, b@]);
    out
}

fn fixed3(a: &str, b: &str, c: &str) -> (out: Vec<String>)
    ensures
        views(out@) == seq![a@, b@, c@],
{
    let mut out: Vec<String> = Vec::new();
    out.push(a.to_string());
    out.push(b.to_string());
    out.push(c.to_string());
    assert(views(out@) =~= seq![a@, b@, c@]);
    out
}

fn namespaced(verb: &str, namespace: &Option<String>) -> (out: Vec<String>)
    ensures
        views(out@) == seq![verb@, "--namespace"@, namespace_or_default(opt_view(*namespace))],
{
    let mut out: Vec<String> = Vec::new();
    let ns = namespace_text(namespace);
    out.push(verb.to_string());
    out.push("--namespace".to_string());
    out.push(ns);
    assert(views(out@) =~= seq![verb@, "--namespace"@, ns@]);
    out
}

impl Operation {
    /// The argument list of the request, or why it cannot be made.
    pub fn to_args(&self) -> (r: Result<Vec<String>, String>)
        ensures
            args_view(r) == args_of(*self),
    {
        match self {
            Operation::Check { namespace } => {
                let mut out = namespaced("check", namespace);
                push_arg(&mut out, "--json");
                assert(views(out@) =~= args_of(*self)->Ok_0);
                Ok(out)
            },
            Operation::Status => Ok(fixed1("status")),
            Operation::Next { namespace, force, pack } => {
                let mut out = namespaced("next", namespace);
                push_arg(&mut out, "--json");
                let on = match force {
                    Some(b) => *b,
                    None => false,
                };
                push_flag_if(&mut out, "--force", on);
                match pack {
                    Some(name) => {
                        if !blank(name.as_str()) {
                            push_pair(&mut out, "--pack", name.clone());
                        }
                    },
                    None => {},
                }
                assert(views(out@) =~= args_of(*self)->Ok_0);
                Ok(out)
            },
            Operation::InitApply { namespace } => {
                let mut out = namespaced("init", namespace);
                push_arg(&mut out, "--apply");
                push_arg(&mut out, "--force");
                push_arg(&mut out, "--json");
                assert(views(out@) =~= args_of(*self)->Ok_0);
                Ok(out)
            },
            Operation::HydratePack { name, count } => {
                let mut out = fixed2("hydrate-pack", name.as_str());
                push_pair(&mut out, "--count", decimal(*count));
                assert(views(out@) =~= args_of(*self)->Ok_0);
                Ok(out)
            },
            Operation::CachePrune => Ok(fixed1("cache-prune-hard")),
            Operation::CachePrunePack { name } => Ok(
                fixed2("cache-prune-pack-hard", name.as_str()),
            ),
            Operation::ListPacks => Ok(fixed1("list-packs")),
            Operation::SettingsGet => Ok(fixed2("settings", "get")),
            Operation::SettingsSet {
                mode,
                rotation_interval_sec,
                transition_type,
                transition_fps,
                transition_duration,
                transition_angle,
                transition_pos,
            } => {
                let mut out = fixed2("settings", "set");
                push_flag_as_is(&mut out, "--mode", mode);
                push_flag_number(&mut out, "--rotation-interval-sec", *rotation_interval_sec);
                push_flag_as_is(&mut out, "--transition-type", transition_type);
                push_flag_number(&mut out, "--transition-fps", *transition_fps);
                push_flag_as_is(&mut out, "--transition-duration", transition_duration);
                push_flag_as_is(&mut out, "--transition-angle", transition_angle);
                push_flag_as_is(&mut out, "--transition-pos", transition_pos);
                Ok(out)
            },
            Operation::HistoryList { limit } => {
                let mut out = fixed1("history");
                push_flag_number(&mut out, "--limit", *limit);
                Ok(out)
            },
            Operation::HistoryClear => Ok(fixed2("history", "clear")),
            Operation::FavoritesList => Ok(fixed1("favorites")),
            Operation::FavoriteAdd { path } => Ok(fixed3("favorite", "add", path.as_str())),
            Operation::FavoriteRemove { path } => Ok(fixed3("favorite", "remove", path.as_str())),
            Operation::Logs { limit, source, pack, level, q } => {
                let mut out = fixed1("logs");
                push_flag_number(&mut out, "--limit", *limit);
                push_flag_text(&mut out, "--source", source);
                push_flag_text(&mut out, "--pack", pack);
                push_flag_text(&mut out, "--level", level);
                push_flag_text(&mut out, "--q", q);
                Ok(out)
            },
            Operation::LogsClear => Ok(fixed2("logs", "clear")),
            Operation::InstallTimer { every } => {
                if blank(every.as_str()) {
                    Err("every is required".to_string())
                } else {
                    let clean = trim(every.as_str());
                    Ok(fixed3("install-systemd", "--every", clean.as_str()))
                }
            },
            Operation::PackList => Ok(fixed2("pack", "list")),
            Operation::PackRemove { name } => Ok(fixed3("pack", "remove", name.as_str())),
            Operation::PackSetKey { name, api_key } => {
                let mut out = fixed3("pack", "set-key", name.as_str());
                push_pair(&mut out, "--api-key", api_key.clone());
                assert(views(out@) =~= args_of(*self)->Ok_0);
                Ok(out)
            },
            Operation::PackSetKeyEnv { name, variable } => {
                let mut out = fixed3("pack", "set-key", name.as_str());
                push_pair(&mut out, "--api-key-env", variable.clone());
                assert(views(out@) =~= args_of(*self)->Ok_0);
                Ok(out)
            },
        }
    }
}

} // verus!
