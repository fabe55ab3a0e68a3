//! The keys of the online sources: which key the packs hold, and the
//! commands that store a new one in every pack of a source.

use crate::json::{lemma_member_documents, Json, JsonView, Member};
use crate::text::{blank, lemma_views_push, opt_view, same_text, trim, trimmed, views};
use vstd::prelude::*;

verus! {

/// The type of a pack's source; empty when the pack names none.
pub open spec fn source_of(pack: JsonView) -> Seq<char> {
    match pack.text_at("type"@) {
        Some(t) => t,
        None => Seq::empty(),
    }
}

/// The packs of a pack listing, none when it holds no `packs` object.
pub open spec fn packs_of(listing: JsonView) -> Seq<(Seq<char>, JsonView)> {
    match listing.get("packs"@) {
        Some(JsonView::Object(members)) => members,
        _ => Seq::empty(),
    }
}

/// How many of `packs` come before the first whose source is `source`.
pub open spec fn others_before(packs: Seq<(Seq<char>, JsonView)>, source: Seq<char>) -> nat
    decreases packs.len(),
{
    if packs.len() == 0 || source_of(packs[0].1) == source {
        0
    } else {
        1 + others_before(packs.drop_first(), source)
    }
}

/// The key that the packs of one source use.
#[derive(Debug, PartialEq, Eq)]
pub struct SourceKey {
    /// The key itself, when the pack holds it.
    pub value: Option<String>,
    /// The variable that the pack reads its key from, when it names one.
    pub api_key_env: Option<String>,
    /// The pack that was asked; `None` when the source has no pack.
    pub pack: Option<String>,
}

/// The key of a source as texts.
pub struct SourceKeyView {
    pub value: Option<Seq<char>>,
    pub api_key_env: Option<Seq<char>>,
    pub pack: Option<Seq<char>>,
}

impl View for SourceKey {
    type V = SourceKeyView;

    open spec fn view(&self) -> SourceKeyView {
        SourceKeyView {
            value: opt_view(self.value),
            api_key_env: opt_view(self.api_key_env),
            pack: opt_view(self.pack),
        }
    }
}

/// The key of the source `source` according to a pack listing: that of the
/// first pack of the source.
pub open spec fn source_key_of(listing: JsonView, source: Seq<char>) -> SourceKeyView {
    let packs = packs_of(listing);
    let at = others_before(packs, source) as int;
    if at < packs.len() {
        SourceKeyView {
            value: packs[at].1.text_at("apiKey"@),
            api_key_env: packs[at].1.text_at("apiKeyEnv"@),
            pack: Some(packs[at].0),
        }
    } else {
        SourceKeyView { value: None, api_key_env: None, pack: None }
    }
}

fn has_source(pack: &Json, source: &str) -> (b: bool)
    ensures
        b == (source_of(pack@) == source@),
{
    match pack.text_at("type") {
        Some(t) => same_text(t.as_str(), source),
        None => {
            let b = source.unicode_len() == 0;
            assert(b == (source@ =~= Seq::<char>::empty()));
            b
        },
    }
}

fn copy_text(t: Option<&String>) -> (r: Option<String>)
    ensures
        match (t, r) {
            (Some(a), Some(b)) => a@ == b@,
            (None, None) => true,
            _ => false,
        },
{
    match t {
        Some(s) => Some(s.clone()),
        None => None,
    }
}

/// The packs of a listing.
fn listed_packs(listing: &Json) -> (r: Option<&Vec<Member>>)
    ensures
        match r {
            Some(members) => {
                &&& packs_of(listing@).len() == members.len()
                &&& forall|k: int|
                    0 <= k < members.len() ==> #[trigger] packs_of(listing@)[k] == (
                        members[k].key@,
                        members[k].value@,
                    )
            },
            None => packs_of(listing@).len() == 0,
        },
{
    match listing.get("packs") {
        Some(Json::Object(members)) => {
            proof {
                lemma_member_documents(members@);
            }
            Some(members)
        },
        _ => None,
    }
}

/// The key that the packs of the source `source` use, according to the
/// wallpaper manager's pack listing.
pub fn source_key(listing: &Json, source: &str) -> (key: SourceKey)
    ensures
        key@ == source_key_of(listing@, source@),
{
    let ghost packs = packs_of(listing@);
    match listed_packs(listing) {
        Some(members) => {
            let mut i: usize = 0;
            assert(packs.skip(0) =~= packs);
            while i < members.len()
                invariant
                    i <= members.len() == packs.len(),
                    packs == packs_of(listing@),
                    forall|k: int|
                        0 <= k < members.len() ==> #[trigger] packs[k] == (
                            members[k].key@,
                            members[k].value@,
                        ),
                    others_before(packs, source@) == i + others_before(
                        packs.skip(i as int),
                        source@,
                    ),
                decreases members.len() - i,
            {
                assert(packs.skip(i as int)[0] == packs[i as int]);
                if has_source(&members[i].value, source) {
                    return SourceKey {
                        value: copy_text(members[i].value.text_at("apiKey")),
                        api_key_env: copy_text(members[i].value.text_at("apiKeyEnv")),
                        pack: Some(members[i].key.clone()),
                    };
                }
                assert(packs.skip(i as int).drop_first() =~= packs.skip(i + 1));
                i += 1;
            }
            SourceKey { value: None, api_key_env: None, pack: None }
        },
        None => SourceKey { value: None, api_key_env: None, pack: None },
    }
}

/// A request to store keys in the packs of the two online sources that
/// take one.
#[derive(Debug, PartialEq, Eq)]
pub struct KeyRequest {
    pub wallhaven_key: Option<String>,
    pub unsplash_key: Option<String>,
    /// The variable to read the first source's key from, `WALLHAVEN_KEY`
    /// when none is given.
    pub wallhaven_env: Option<String>,
    /// The variable to read the second source's key from, `UNSPLASH_KEY`
    /// when none is given.
    pub unsplash_env: Option<String>,
    /// Whether the packs shall read their keys from the variables rather
    /// than hold them.
    pub use_env: Option<bool>,
}

/// A text that may be missing, without white space around it; `fallback`
/// stands in for a missing one.
pub open spec fn cleaned(value: Option<Seq<char>>, fallback: Seq<char>) -> Seq<char> {
    match value {
        Some(v) => trimmed(v),
        None => trimmed(fallback),
    }
}

impl KeyRequest {
    /// Whether the packs shall read their keys from variables.
    pub open spec fn by_env(self) -> bool {
        self.use_env == Some(true)
    }

    /// The key or variable to store in a pack of the source `source`;
    /// nothing for any other source.
    pub open spec fn secret_for(self, source: Seq<char>) -> Option<Seq<char>> {
        if source == "wallhaven"@ {
            Some(
                if self.by_env() {
                    cleaned(opt_view(self.wallhaven_env), "WALLHAVEN_KEY"@)
                } else {
                    cleaned(opt_view(self.wallhaven_key), Seq::empty())
                },
            )
        } else if source == "unsplash"@ {
            Some(
                if self.by_env() {
                    cleaned(opt_view(self.unsplash_env), "UNSPLASH_KEY"@)
                } else {
                    cleaned(opt_view(self.unsplash_key), Seq::empty())
                },
            )
        } else {
            None
        }
    }

    /// Whether the request gives nothing to store: no variables are to be
    /// used and both keys are missing or blank.
    pub open spec fn is_empty(self) -> bool {
        !self.by_env() && cleaned(opt_view(self.wallhaven_key), Seq::empty()).len() == 0
            && cleaned(opt_view(self.unsplash_key), Seq::empty()).len() == 0
    }

    /// The command that stores the request's key in the pack `name` of the
    /// source `source`, if there is one to run: none for a source that takes
    /// no key, none when a key is to be stored and none is given.
    pub open spec fn command_for(self, name: Seq<char>, source: Seq<char>) -> Option<
        Seq<Seq<char>>,
    > {
        match self.secret_for(source) {
            Some(secret) => if self.by_env() {
                Some(seq!["pack"@, "set-key"@, name, "--api-key-env"@, secret])
            } else if secret.len() > 0 {
                Some(seq!["pack"@, "set-key"@, name, "--api-key"@, secret])
            } else {
                None
            },
            None => None,
        }
    }

    /// The commands for `packs`, pack by pack.
    pub open spec fn commands_for(self, packs: Seq<(Seq<char>, JsonView)>) -> Seq<Seq<Seq<char>>>
        decreases packs.len(),
    {
        if packs.len() == 0 {
            Seq::empty()
        } else {
            let before = self.commands_for(packs.drop_last());
            match self.command_for(packs.last().0, source_of(packs.last().1)) {
                Some(cmd) => before.push(cmd),
                None => before,
            }
        }
    }
}

/// The names of those of `packs` whose source is `source`, in order.
pub open spec fn names_of(packs: Seq<(Seq<char>, JsonView)>, source: Seq<char>) -> Seq<Seq<char>>
    decreases packs.len(),
{
    if packs.len() == 0 {
        Seq::empty()
    } else {
        let before = names_of(packs.drop_last(), source);
        if source_of(packs.last().1) == source {
            before.push(packs.last().0)
        } else {
            before
        }
    }
}

/// What carries a key request out.
#[derive(Debug, PartialEq, Eq)]
pub struct KeyPlan {
    /// The argument lists of the commands to run, in order.
    pub commands: Vec<Vec<String>>,
    /// The packs of the first source, whether or not a command is run for
    /// them.
    pub wallhaven: Vec<String>,
    /// The packs of the second source.
    pub unsplash: Vec<String>,
}

/// The views of argument lists, list by list.
pub open spec fn all_views(lists: Seq<Vec<String>>) -> Seq<Seq<Seq<char>>> {
    Seq::new(lists.len(), |i: int| views(lists[i]@))
}

/// A key plan as texts.
pub struct KeyPlanView {
    pub commands: Seq<Seq<Seq<char>>>,
    pub wallhaven: Seq<Seq<char>>,
    pub unsplash: Seq<Seq<char>>,
}

impl View for KeyPlan {
    type V = KeyPlanView;

    open spec fn view(&self) -> KeyPlanView {
        KeyPlanView {
            commands: all_views(self.commands@),
            wallhaven: views(self.wallhaven@),
            unsplash: views(self.unsplash@),
        }
    }
}

/// What becomes of a key request, given the pack listing.
pub open spec fn key_plan_of(req: KeyRequest, listing: JsonView) -> Result<KeyPlanView, Seq<char>> {
    if req.is_empty() {
        Err("No API key provided"@)
    } else {
        Ok(
            KeyPlanView {
                commands: req.commands_for(packs_of(listing)),
                wallhaven: names_of(packs_of(listing), "wallhaven"@),
                unsplash: names_of(packs_of(listing), "unsplash"@),
            },
        )
    }
}

fn clean(value: &Option<String>, fallback: &str) -> (out: String)
    ensures
        out@ == cleaned(opt_view(*value), fallback@),
{
    match value {
        Some(v) => trim(v.as_str()),
        None => trim(fallback),
    }
}

fn set_key_command(name: &String, flag: &str, secret: &String) -> (out: Vec<String>)
    ensures
        views(out@) == seq!["pack"@, "set-key"@, name@, flag@, secret@],
{
    let mut out: Vec<String> = Vec::new();
    out.push("pack".to_string());
    out.push("set-key".to_string());
    out.push(name.clone());
    out.push(flag.to_string());
    out.push(secret.clone());
    assert(views(out@) =~= seq!["pack"@, "set-key"@, name@, flag@, secret@]);
    out
}

impl KeyRequest {
    fn uses_env(&self) -> (b: bool)
        ensures
            b == self.by_env(),
    {
        match self.use_env {
            Some(b) => b,
            None => false,
        }
    }

    /// Says whether the request gives anything to store.
    pub fn check(&self) -> (r: Result<(), String>)
        ensures
            match r {
                Ok(_) => !self.is_empty(),
                Err(what) => self.is_empty() && what@ == "No API key provided"@,
            },
    {
        if !self.uses_env() && clean(&self.wallhaven_key, "").unicode_len() == 0 && clean(
            &self.unsplash_key,
            "",
        ).unicode_len() == 0 {
            proof {
                lemma_empty_trims_to_empty();
            }
            Err("No API key provided".to_string())
        } else {
            proof {
                lemma_empty_trims_to_empty();
            }
            Ok(())
        }
    }

    /// The commands that store the request's keys, given the wallpaper
    /// manager's pack listing, and the packs concerned.
    pub fn plan(&self, listing: &Json) -> (r: Result<KeyPlan, String>)
        ensures
            match r {
                Ok(plan) => key_plan_of(*self, listing@) == Ok::<KeyPlanView, Seq<char>>(plan@),
                Err(what) => key_plan_of(*self, listing@) == Err::<KeyPlanView, Seq<char>>(what@),
            },
    {
        match self.check() {
            Err(what) => {
                return Err(what);
            },
            Ok(_) => {},
        }
        proof {
            lemma_empty_trims_to_empty();
        }
        let by_env = self.uses_env();
        let (wallhaven_secret, unsplash_secret, flag) = if by_env {
            (
                clean(&self.wallhaven_env, "WALLHAVEN_KEY"),
                clean(&self.unsplash_env, "UNSPLASH_KEY"),
                "--api-key-env",
            )
        } else {
            (clean(&self.wallhaven_key, ""), clean(&self.unsplash_key, ""), "--api-key")
        };
        let mut commands: Vec<Vec<String>> = Vec::new();
        let mut wallhaven: Vec<String> = Vec::new();
        let mut unsplash: Vec<String> = Vec::new();
        let ghost packs = packs_of(listing@);
        assert(packs.take(0) =~= Seq::<(Seq<char>, JsonView)>::empty());
        assert(all_views(commands@) =~= Seq::<Seq<Seq<char>>>::empty());
        assert(views(wallhaven@) =~= Seq::<Seq<char>>::empty());
        assert(views(unsplash@) =~= Seq::<Seq<char>>::empty());
        match listed_packs(listing) {
            Some(members) => {
                let mut i: usize = 0;
                while i < members.len()
                    invariant
                        i <= members.len() == packs.len(),
                        forall|k: int|
                            0 <= k < members.len() ==> #[trigger] packs[k] == (
                                members[k].key@,
                                members[k].value@,
                            ),
                        by_env == self.by_env(),
                        flag@ == (if by_env {
                            "--api-key-env"@
                        } else {
                            "--api-key"@
                        }),
                        self.secret_for("wallhaven"@) == Some(wallhaven_secret@),
                        self.secret_for("unsplash"@) == Some(unsplash_secret@),
                        "wallhaven"@ != "unsplash"@,
                        all_views(commands@) == self.commands_for(packs.take(i as int)),
                        views(wallhaven@) == names_of(packs.take(i as int), "wallhaven"@),
                        views(unsplash@) == names_of(packs.take(i as int), "unsplash"@),
                    decreases members.len() - i,
                {
                    proof {
                        assert(packs.take(i + 1).drop_last() =~= packs.take(i as int));
                        assert(packs.take(i + 1).last() == packs[i as int]);
                    }
                    let name = &members[i].key;
                    let pack = &members[i].value;
                    if has_source(pack, "wallhaven") {
                        if by_env || wallhaven_secret.unicode_len() > 0 {
                            let cmd = set_key_command(name, flag, &wallhaven_secret);
                            let ghost before = all_views(commands@);
                            commands.push(cmd);
                            assert(all_views(commands@) =~= before.push(views(cmd@)));
                        }
                        proof {
                            lemma_views_push(wallhaven@, *name);
                        }
                        wallhaven.push(name.clone());
                    } else if has_source(pack, "unsplash") {
                        if by_env || unsplash_secret.unicode_len() > 0 {
                            let cmd = set_key_command(name, flag, &unsplash_secret);
                            let ghost before = all_views(commands@);
                            commands.push(cmd);
                            assert(all_views(commands@) =~= before.push(views(cmd@)));
                        }
                        proof {
                            lemma_views_push(unsplash@, *name);
                        }
                        unsplash.push(name.clone());
                    }
                    i += 1;
                }
                assert(packs.take(packs.len() as int) =~= packs);
            },
            None => {},
        }
        Ok(KeyPlan { commands, wallhaven, unsplash })
    }
}

/// The names of the two sources differ, and trimming an empty text gives
/// an empty text.
proof fn lemma_empty_trims_to_empty()
    ensures
        trimmed(""@) == Seq::<char>::empty(),
        trimmed(Seq::<char>::empty()) == Seq::<char>::empty(),
        "wallhaven"@ != "unsplash"@,
{
    reveal_strlit("");
    reveal_strlit("wallhaven");
    reveal_strlit("unsplash");
    assert(""@ =~= Seq::<char>::empty());
    assert("wallhaven"@.len() != "unsplash"@.len());
}

} // verus!
