//! Where the wallpapers are kept, as the user's configuration file says.
//!
//! The file is a JSON document. `cache.downloadDir` names the folder that
//! downloads go to; every pack of type `local` names one or more folders of
//! its own under `paths`. A leading `~` stands for the home folder.

use crate::json::{json_text, lemma_documents, lemma_member_documents, parse, Json, JsonView};
use crate::path::{expand_tilde, join, joined, tilde_expanded};
use crate::text::{lemma_views_push, opt_view, same_text, views};
use vstd::prelude::*;
use vstd::string::StringExecFns;

verus! {

/// A folder named by the configuration, before anyone has looked whether
/// it exists.
#[derive(Debug, PartialEq, Eq)]
pub struct ConfiguredRoot {
    pub path: String,
    /// The local pack that names the folder; `None` for the download folder.
    pub pack: Option<String>,
}

/// A configured folder as texts.
pub struct ConfiguredRootView {
    pub path: Seq<char>,
    pub pack: Option<Seq<char>>,
}

impl View for ConfiguredRoot {
    type V = ConfiguredRootView;

    open spec fn view(&self) -> ConfiguredRootView {
        ConfiguredRootView { path: self.path@, pack: opt_view(self.pack) }
    }
}

/// The configuration file of the user whose home folder is `home`.
pub open spec fn config_file_of(home: Seq<char>) -> Seq<char> {
    joined(joined(joined(home, ".config"@), "kitowall"@), "config.json"@)
}

/// The path of the configuration file.
pub fn config_path(home: &str) -> (out: String)
    ensures
        out@ == config_file_of(home@),
{
    let a = join(home, ".config");
    let b = join(a.as_str(), "kitowall");
    join(b.as_str(), "config.json")
}

/// The download folder that a configuration names, `~/Pictures/Wallpapers`
/// when it names none.
pub open spec fn download_dir_of(config: JsonView) -> Seq<char> {
    match config.get("cache"@) {
        Some(cache) => match cache.text_at("downloadDir"@) {
            Some(dir) => dir,
            None => "~/Pictures/Wallpapers"@,
        },
        None => "~/Pictures/Wallpapers"@,
    }
}

/// The download folder of the configuration `config`, `~` expanded.
pub fn download_root_from(home: &str, config: &Json) -> (out: String)
    ensures
        out@ == tilde_expanded(home@, download_dir_of(config@)),
{
    let named = match config.get("cache") {
        Some(cache) => cache.text_at("downloadDir"),
        None => None,
    };
    match named {
        Some(dir) => expand_tilde(home, dir.as_str()),
        None => expand_tilde(home, "~/Pictures/Wallpapers"),
    }
}

/// What a configuration file's content says when the parser has been over
/// it: `None` stands for no file at all, which is a valid, empty
/// configuration; a file that is not JSON is an error.
pub open spec fn read_config(raw: Option<Seq<char>>) -> Result<Option<JsonView>, Seq<char>> {
    match raw {
        None => Ok(None),
        Some(text) => match json_text(text) {
            Ok(doc) => Ok(Some(doc)),
            Err(why) => Err("invalid config.json: "@ + why),
        },
    }
}

/// Parses the content of the configuration file, if there is a file.
pub fn load_config(raw: Option<&str>) -> (r: Result<Option<Json>, String>)
    ensures
        match r {
            Ok(Some(doc)) => read_config(opt_text(raw)) == Ok::<Option<JsonView>, Seq<char>>(
                Some(doc@),
            ),
            Ok(None) => read_config(opt_text(raw)) == Ok::<Option<JsonView>, Seq<char>>(None),
            Err(e) => read_config(opt_text(raw)) == Err::<Option<JsonView>, Seq<char>>(e@),
        },
{
    match raw {
        None => Ok(None),
        Some(text) => match parse(text) {
            Ok(doc) => Ok(Some(doc)),
            Err(why) => {
                let mut message = "invalid config.json: ".to_string();
                message.append(why.as_str());
                Err(message)
            },
        },
    }
}

/// The view of an optional borrowed text.
pub open spec fn opt_text(o: Option<&str>) -> Option<Seq<char>> {
    match o {
        Some(s) => Some(s@),
        None => None,
    }
}

/// The download folder under a configuration that may be absent.
pub open spec fn download_root_of(home: Seq<char>, config: Option<JsonView>) -> Seq<char> {
    match config {
        Some(doc) => tilde_expanded(home, download_dir_of(doc)),
        None => tilde_expanded(home, "~/Pictures/Wallpapers"@),
    }
}

/// The folder that downloads go to. `raw` is the content of the user's
/// configuration file, `None` when there is no such file.
pub fn resolve_download_root(home: &str, raw: Option<&str>) -> (r: Result<String, String>)
    ensures
        match r {
            Ok(dir) => match read_config(opt_text(raw)) {
                Ok(config) => dir@ == download_root_of(home@, config),
                Err(_) => false,
            },
            Err(e) => read_config(opt_text(raw)) == Err::<Option<JsonView>, Seq<char>>(e@),
        },
{
    match load_config(raw) {
        Ok(Some(doc)) => Ok(download_root_from(home, &doc)),
        Ok(None) => Ok(expand_tilde(home, "~/Pictures/Wallpapers")),
        Err(e) => Err(e),
    }
}

/// The strings among `items`, in order.
pub open spec fn texts_of(items: Seq<JsonView>) -> Seq<Seq<char>>
    decreases items.len(),
{
    if items.len() == 0 {
        Seq::empty()
    } else {
        let rest = texts_of(items.drop_last());
        match items.last() {
            JsonView::Text(t) => rest.push(t),
            _ => rest,
        }
    }
}

/// The folders that one pack names: the strings under `paths`, be it a
/// list or a single string, of a pack whose `type` is `local`.
pub open spec fn pack_paths(pack: JsonView) -> Seq<Seq<char>> {
    if pack.text_at("type"@) == Some("local"@) {
        match pack.get("paths"@) {
            Some(JsonView::Array(items)) => texts_of(items),
            Some(JsonView::Text(p)) => seq![p],
            _ => Seq::empty(),
        }
    } else {
        Seq::empty()
    }
}

/// `paths` as folders of the pack `name`, `~` expanded.
pub open spec fn as_roots(home: Seq<char>, name: Seq<char>, paths: Seq<Seq<char>>) -> Seq<
    ConfiguredRootView,
> {
    Seq::new(
        paths.len(),
        |i: int| ConfiguredRootView { path: tilde_expanded(home, paths[i]), pack: Some(name) },
    )
}

/// The folders of the packs `members`, pack by pack.
pub open spec fn local_roots_of(home: Seq<char>, members: Seq<(Seq<char>, JsonView)>) -> Seq<
    ConfiguredRootView,
>
    decreases members.len(),
{
    if members.len() == 0 {
        Seq::empty()
    } else {
        local_roots_of(home, members.drop_last()) + as_roots(
            home,
            members.last().0,
            pack_paths(members.last().1),
        )
    }
}

/// The folders of the local packs of a configuration.
pub open spec fn local_pack_roots_of(home: Seq<char>, config: JsonView) -> Seq<ConfiguredRootView> {
    match config.get("packs"@) {
        Some(JsonView::Object(members)) => local_roots_of(home, members),
        _ => Seq::empty(),
    }
}

fn push_root(out: &mut Vec<ConfiguredRoot>, home: &str, name: &String, path: &String)
    ensures
        views(final(out)@) == views(old(out)@).push(
            ConfiguredRootView { path: tilde_expanded(home@, path@), pack: Some(name@) },
        ),
{
    let root = ConfiguredRoot { path: expand_tilde(home, path.as_str()), pack: Some(name.clone()) };
    proof {
        lemma_views_push(out@, root);
    }
    out.push(root);
}

fn push_pack_roots(out: &mut Vec<ConfiguredRoot>, home: &str, name: &String, pack: &Json)
    ensures
        views(final(out)@) == views(old(out)@) + as_roots(home@, name@, pack_paths(pack@)),
{
    let ghost before = views(out@);
    let local = match pack.text_at("type") {
        Some(kind) => same_text(kind.as_str(), "local"),
        None => false,
    };
    if !local {
        assert(before + as_roots(home@, name@, pack_paths(pack@)) =~= before);
        return;
    }
    match pack.get("paths") {
        Some(Json::Array(items)) => {
            let ghost docs = pack@.get("paths"@)->0->Array_0;
            proof {
                lemma_documents(items@);
            }
            let mut i: usize = 0;
            assert(docs.take(0) =~= Seq::<JsonView>::empty());
            assert(before + as_roots(home@, name@, texts_of(docs.take(0))) =~= before);
            while i < items.len()
                invariant
                    i <= items.len() == docs.len(),
                    forall|k: int| 0 <= k < items.len() ==> #[trigger] docs[k] == items[k]@,
                    views(out@) == before + as_roots(home@, name@, texts_of(docs.take(i as int))),
                decreases items.len() - i,
            {
                let ghost sofar = texts_of(docs.take(i as int));
                proof {
                    assert(docs.take(i + 1).drop_last() =~= docs.take(i as int));
                    assert(docs.take(i + 1).last() == items[i as int]@);
                }
                match &items[i] {
                    Json::Text(p) => {
                        push_root(out, home, name, p);
                        assert(views(out@) =~= before + as_roots(home@, name@, sofar.push(p@)));
                    },
                    _ => {},
                }
                i += 1;
            }
            assert(docs.take(docs.len() as int) =~= docs);
        },
        Some(Json::Text(p)) => {
            push_root(out, home, name, p);
            assert(views(out@) =~= before + as_roots(home@, name@, seq![p@]));
        },
        _ => {
            assert(before + as_roots(home@, name@, pack_paths(pack@)) =~= before);
        },
    }
}

/// The folders of the local packs of the configuration `config`, in the
/// order of the packs and, within a pack, of its paths.
pub fn local_pack_roots_from(home: &str, config: &Json) -> (out: Vec<ConfiguredRoot>)
    ensures
        views(out@) == local_pack_roots_of(home@, config@),
{
    let mut out: Vec<ConfiguredRoot> = Vec::new();
    assert(views(out@) =~= Seq::<ConfiguredRootView>::empty());
    match config.get("packs") {
        Some(Json::Object(members)) => {
            let ghost docs = config@.get("packs"@)->0->Object_0;
            proof {
                lemma_member_documents(members@);
            }
            let mut i: usize = 0;
            assert(docs.take(0) =~= Seq::<(Seq<char>, JsonView)>::empty());
            while i < members.len()
                invariant
                    i <= members.len() == docs.len(),
                    forall|k: int|
                        0 <= k < members.len() ==> #[trigger] docs[k] == (
                            members[k].key@,
                            members[k].value@,
                        ),
                    views(out@) == local_roots_of(home@, docs.take(i as int)),
                decreases members.len() - i,
            {
                proof {
                    assert(docs.take(i + 1).drop_last() =~= docs.take(i as int));
                    assert(docs.take(i + 1).last() == docs[i as int]);
                }
                push_pack_roots(&mut out, home, &members[i].key, &members[i].value);
                i += 1;
            }
            assert(docs.take(docs.len() as int) =~= docs);
        },
        _ => {},
    }
    out
}

/// The folders of the local packs under a configuration that may be absent.
pub open spec fn local_roots_under(home: Seq<char>, config: Option<JsonView>) -> Seq<
    ConfiguredRootView,
> {
    match config {
        Some(doc) => local_pack_roots_of(home, doc),
        None => Seq::empty(),
    }
}

/// The folders of the user's local packs. `raw` is the content of the
/// configuration file, `None` when there is no such file.
pub fn resolve_local_pack_roots(home: &str, raw: Option<&str>) -> (r: Result<
    Vec<ConfiguredRoot>,
    String,
>)
    ensures
        match r {
            Ok(roots) => match read_config(opt_text(raw)) {
                Ok(config) => views(roots@) == local_roots_under(home@, config),
                Err(_) => false,
            },
            Err(e) => read_config(opt_text(raw)) == Err::<Option<JsonView>, Seq<char>>(e@),
        },
{
    match load_config(raw) {
        Ok(Some(doc)) => Ok(local_pack_roots_from(home, &doc)),
        Ok(None) => {
            let none: Vec<ConfiguredRoot> = Vec::new();
            assert(views(none@) =~= Seq::<ConfiguredRootView>::empty());
            Ok(none)
        },
        Err(e) => Err(e),
    }
}

/// Every folder to look into for wallpapers: the download folder first,
/// then the folders of the local packs.
pub open spec fn all_roots_of(home: Seq<char>, config: Option<JsonView>) -> Seq<ConfiguredRootView> {
    seq![ConfiguredRootView { path: download_root_of(home, config), pack: None }]
        + local_roots_under(home, config)
}

/// The folders to look into for wallpapers. `raw` is the content of the
/// configuration file, `None` when there is no such file.
pub fn configured_roots(home: &str, raw: Option<&str>) -> (r: Result<Vec<ConfiguredRoot>, String>)
    ensures
        match r {
            Ok(roots) => match read_config(opt_text(raw)) {
                Ok(config) => views(roots@) == all_roots_of(home@, config),
                Err(_) => false,
            },
            Err(e) => read_config(opt_text(raw)) == Err::<Option<JsonView>, Seq<char>>(e@),
        },
{
    match load_config(raw) {
        Ok(Some(doc)) => {
            let mut roots: Vec<ConfiguredRoot> = Vec::new();
            roots.push(ConfiguredRoot { path: download_root_from(home, &doc), pack: None });
            let mut locals = local_pack_roots_from(home, &doc);
            let ghost first = views(roots@);
            let ghost rest = views(locals@);
            roots.append(&mut locals);
            assert(views(roots@) =~= first + rest);
            assert(first =~= seq![
                ConfiguredRootView { path: download_root_of(home@, Some(doc@)), pack: None },
            ]);
            Ok(roots)
        },
        Ok(None) => {
            let mut roots: Vec<ConfiguredRoot> = Vec::new();
            roots.push(
                ConfiguredRoot { path: expand_tilde(home, "~/Pictures/Wallpapers"), pack: None },
            );
            assert(views(roots@) =~= all_roots_of(home@, None));
            Ok(roots)
        },
        Err(e) => Err(e),
    }
}

} // verus!
