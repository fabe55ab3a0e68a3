//! One listing of the wallpaper files found under several folders.
//!
//! The caller walks the folders and reports every file it meets; this module
//! decides which of them are wallpapers, drops a file that was already met
//! under another folder, names the pack each one belongs to, and orders the
//! result so that the most recently changed file comes first.

use crate::path::{
    extension, extension_of, file_name, file_name_of, leads, path_segments, relative_segments,
    segments,
};
use crate::text::{ascii_lowercase, chars_of, lowercase_range, opt_view, same_chars, views};
use vstd::prelude::*;

verus! {

/// A folder to look into.
#[derive(Debug, PartialEq, Eq)]
pub struct PackRoot {
    /// The folder's resolved absolute path; `None` when the folder does not
    /// exist.
    pub dir: Option<String>,
    /// The pack that every file below the folder belongs to. Without one,
    /// a file belongs to the pack named by the first folder on its way down
    /// from `dir`.
    pub pack: Option<String>,
}

/// A file that the caller met while walking a folder.
#[derive(Debug, PartialEq, Eq)]
pub struct ScannedFile {
    /// Which folder was being walked: an index into the list of roots.
    pub root: usize,
    /// The path under which the file was met.
    pub path: String,
    /// The resolved absolute path of the file, links followed; `None` when
    /// it could not be resolved.
    pub canonical: Option<String>,
    /// When the file was last changed, in milliseconds since the epoch;
    /// `None` when that could not be read.
    pub modified_ms: Option<u64>,
}

/// One wallpaper of the listing.
#[derive(Debug, PartialEq, Eq)]
pub struct WallpaperItem {
    /// Resolved absolute path; no two items of a listing share it.
    pub path: String,
    /// The pack the file belongs to.
    pub pack: String,
    /// The file's bare name.
    pub file_name: String,
    /// Last change in milliseconds since the epoch, 0 when unknown.
    pub modified_ms: u64,
}

/// A folder to look into, as texts.
pub struct RootView {
    pub dir: Option<Seq<char>>,
    pub pack: Option<Seq<char>>,
}

/// A file that was met, as texts.
pub struct FileView {
    pub root: nat,
    pub path: Seq<char>,
    pub canonical: Option<Seq<char>>,
    pub modified_ms: Option<u64>,
}

/// A wallpaper of the listing, as texts.
pub struct ItemView {
    pub path: Seq<char>,
    pub pack: Seq<char>,
    pub file_name: Seq<char>,
    pub modified_ms: u64,
}

impl View for PackRoot {
    type V = RootView;

    open spec fn view(&self) -> RootView {
        RootView { dir: opt_view(self.dir), pack: opt_view(self.pack) }
    }
}

impl View for ScannedFile {
    type V = FileView;

    open spec fn view(&self) -> FileView {
        FileView {
            root: self.root as nat,
            path: self.path@,
            canonical: opt_view(self.canonical),
            modified_ms: self.modified_ms,
        }
    }
}

impl View for WallpaperItem {
    type V = ItemView;

    open spec fn view(&self) -> ItemView {
        ItemView {
            path: self.path@,
            pack: self.pack@,
            file_name: self.file_name@,
            modified_ms: self.modified_ms,
        }
    }
}

/// The extensions of image files, in lower case.
pub open spec fn image_extension(e: Seq<char>) -> bool {
    ||| e == "jpg"@
    ||| e == "jpeg"@
    ||| e == "png"@
    ||| e == "webp"@
    ||| e == "bmp"@
    ||| e == "gif"@
    ||| e == "avif"@
}

/// Whether the file name at the end of `path` has an image extension,
/// whatever the case of its letters.
pub open spec fn is_image_path(path: Seq<char>) -> bool {
    match extension_of(file_name_of(path)) {
        Some(e) => image_extension(ascii_lowercase(e)),
        None => false,
    }
}

/// Whether `path` names an image file, judged by its extension alone.
pub fn is_image_ext(path: &str) -> (b: bool)
    ensures
        b == is_image_path(path@),
{
    let name = file_name(path);
    match extension(name.as_str()) {
        Some(e) => {
            let chars = chars_of(e.as_str());
            let lower = lowercase_range(&chars, 0, chars.len());
            assert(chars@.subrange(0, chars@.len() as int) =~= chars@);
            same_chars(&lower, &chars_of("jpg")) || same_chars(&lower, &chars_of("jpeg"))
                || same_chars(&lower, &chars_of("png")) || same_chars(&lower, &chars_of("webp"))
                || same_chars(&lower, &chars_of("bmp")) || same_chars(&lower, &chars_of("gif"))
                || same_chars(&lower, &chars_of("avif"))
        },
        None => false,
    }
}

/// The pack of a file that lies `rel` below a folder without a pack of its
/// own: the first folder on the way down, or `root` for a file that lies in
/// the folder itself.
pub open spec fn pack_below(rel: Seq<Seq<char>>) -> Seq<char> {
    if rel.len() >= 2 {
        rel[0]
    } else {
        "root"@
    }
}

/// The pack of a file below a folder `dir` that has no pack of its own,
/// told by the way down from `dir` to `path`; nothing when `path` does not
/// lie below `dir`.
pub open spec fn pack_on_the_way(dir: Seq<char>, path: Seq<char>) -> Option<Seq<char>> {
    match relative_segments(dir, path) {
        Some(rel) => Some(pack_below(rel)),
        None => None,
    }
}

/// The pack of a file met under the folder `root`. The folder's own pack,
/// if it has one. Else the pack told by where the file resolves to below
/// the folder; for a file that resolves to a place outside the folder, as
/// a link may, the pack told by the path under which it was met; and
/// `root` when that does not lie below the folder either.
pub open spec fn pack_of(root: RootView, dir: Seq<char>, met: Seq<char>, resolved: Seq<char>) -> Seq<
    char,
> {
    match root.pack {
        Some(pack) => pack,
        None => match pack_on_the_way(dir, resolved) {
            Some(pack) => pack,
            None => match pack_on_the_way(dir, met) {
                Some(pack) => pack,
                None => "root"@,
            },
        },
    }
}

/// What one scanned file adds to a listing, as long as no earlier file has
/// the same resolved path. A file counts when it has an image extension,
/// could be resolved, and was met under a folder that exists; any other
/// file adds nothing.
pub open spec fn candidate(roots: Seq<RootView>, f: FileView) -> Option<ItemView> {
    if !is_image_path(f.path) || f.root >= roots.len() {
        None
    } else {
        match (f.canonical, roots[f.root as int].dir) {
            (Some(path), Some(dir)) => Some(
                ItemView {
                    path,
                    pack: pack_of(roots[f.root as int], dir, f.path, path),
                    file_name: file_name_of(path),
                    modified_ms: match f.modified_ms {
                        Some(ms) => ms,
                        None => 0,
                    },
                },
            ),
            _ => None,
        }
    }
}

/// Whether one of `items` has the path `path`.
pub open spec fn has_path(items: Seq<ItemView>, path: Seq<char>) -> bool {
    exists|i: int| 0 <= i < items.len() && (#[trigger] items[i]).path == path
}

/// No two items share a path.
pub open spec fn distinct_paths(items: Seq<ItemView>) -> bool {
    forall|i: int, j: int|
        0 <= i < j < items.len() ==> (#[trigger] items[i]).path != (#[trigger] items[j]).path
}

/// The items that `files` add up to, in the order met: each file adds its
/// candidate unless an earlier one already brought that path.
pub open spec fn collected(roots: Seq<RootView>, files: Seq<FileView>) -> Seq<ItemView>
    decreases files.len(),
{
    if files.len() == 0 {
        Seq::empty()
    } else {
        let before = collected(roots, files.drop_last());
        match candidate(roots, files.last()) {
            Some(item) => if has_path(before, item.path) {
                before
            } else {
                before.push(item)
            },
            None => before,
        }
    }
}

/// The pack told by the way down from `dir` to the path with the segments
/// `path_segs`.
fn pack_by_way(dir_segs: &Vec<String>, path_segs: &Vec<String>) -> (r: Option<String>)
    ensures
        opt_view(r) == (if views(dir_segs@).is_prefix_of(views(path_segs@)) {
            Some(pack_below(views(path_segs@).skip(dir_segs@.len() as int)))
        } else {
            None
        }),
{
    if !leads(dir_segs, path_segs) {
        return None;
    }
    let below = path_segs.len() - dir_segs.len();
    if below >= 2 {
        assert(views(path_segs@).skip(dir_segs@.len() as int)[0] == path_segs@[dir_segs@.len() as int]@);
        Some(path_segs[dir_segs.len()].clone())
    } else {
        Some("root".to_string())
    }
}

fn pack_for(root: &PackRoot, dir: &String, met: &String, path_segs: &Vec<String>) -> (pack: String)
    ensures
        forall|resolved: Seq<char>|
            segments(resolved) == views(path_segs@) ==> pack@ == #[trigger] pack_of(
                root@,
                dir@,
                met@,
                resolved,
            ),
{
    match &root.pack {
        Some(pack) => pack.clone(),
        None => {
            let dir_segs = path_segments(dir.as_str());
            match pack_by_way(&dir_segs, path_segs) {
                Some(pack) => pack,
                None => {
                    let met_segs = path_segments(met.as_str());
                    match pack_by_way(&dir_segs, &met_segs) {
                        Some(pack) => pack,
                        None => "root".to_string(),
                    }
                },
            }
        },
    }
}

fn candidate_item(roots: &Vec<PackRoot>, f: &ScannedFile) -> (r: Option<WallpaperItem>)
    ensures
        match r {
            Some(item) => candidate(views(roots@), f@) == Some(item@),
            None => candidate(views(roots@), f@) is None,
        },
{
    if !is_image_ext(f.path.as_str()) || f.root >= roots.len() {
        return None;
    }
    let root = &roots[f.root];
    assert(views(roots@)[f.root as int] == root@);
    match (&f.canonical, &root.dir) {
        (Some(path), Some(dir)) => {
            let mut path_segs = path_segments(path.as_str());
            let pack = pack_for(root, dir, &f.path, &path_segs);
            assert(pack@ == pack_of(root@, dir@, f.path@, path@));
            let ghost all = path_segs@;
            let name = match path_segs.pop() {
                Some(last) => {
                    assert(views(all).last() == all.last()@);
                    last
                },
                None => String::new(),
            };
            let modified_ms = match f.modified_ms {
                Some(ms) => ms,
                None => 0,
            };
            Some(WallpaperItem { path: path.clone(), pack, file_name: name, modified_ms })
        },
        _ => None,
    }
}

fn holds_path(items: &Vec<WallpaperItem>, path: &String) -> (b: bool)
    ensures
        b == has_path(views(items@), path@),
{
    let mut i: usize = 0;
    while i < items.len()
        invariant
            i <= items.len(),
            forall|k: int| 0 <= k < i ==> (#[trigger] views(items@)[k]).path != path@,
        decreases items.len() - i,
    {
        if items[i].path == *path {
            assert(views(items@)[i as int].path == path@);
            return true;
        }
        i += 1;
    }
    false
}

/// The items that `files` add up to, in the order met.
pub fn collect_items(roots: &Vec<PackRoot>, files: &Vec<ScannedFile>) -> (out: Vec<WallpaperItem>)
    ensures
        views(out@) == collected(views(roots@), views(files@)),
{
    let mut out: Vec<WallpaperItem> = Vec::new();
    let mut i: usize = 0;
    assert(views(files@).take(0) =~= Seq::<FileView>::empty());
    assert(views(out@) =~= Seq::<ItemView>::empty());
    while i < files.len()
        invariant
            i <= files.len(),
            views(out@) == collected(views(roots@), views(files@).take(i as int)),
        decreases files.len() - i,
    {
        proof {
            let upto = views(files@).take(i + 1);
            assert(upto.drop_last() =~= views(files@).take(i as int));
            assert(upto.last() == files@[i as int]@);
        }
        match candidate_item(roots, &files[i]) {
            Some(item) => {
                if !holds_path(&out, &item.path) {
                    proof {
                        crate::text::lemma_views_push(out@, item);
                    }
                    out.push(item);
                }
            },
            None => {},
        }
        i += 1;
    }
    assert(views(files@).take(files@.len() as int) =~= views(files@));
    out
}

/// Most recently changed first.
pub open spec fn newest_first(items: Seq<ItemView>) -> bool {
    forall|i: int, j: int|
        0 <= i < j < items.len() ==> (#[trigger] items[i]).modified_ms >= (
        #[trigger] items[j]).modified_ms
}

/// The items that were last changed at `ms`, in the order they have in
/// `items`.
pub open spec fn of_age(items: Seq<ItemView>, ms: u64) -> Seq<ItemView>
    decreases items.len(),
{
    if items.len() == 0 {
        Seq::empty()
    } else {
        let rest = of_age(items.drop_last(), ms);
        if items.last().modified_ms == ms {
            rest.push(items.last())
        } else {
            rest
        }
    }
}

/// `out` is the listing of the items `met`: the same items, most recently
/// changed first, and those changed at the same moment in the order in
/// which they were met.
pub open spec fn is_listing(out: Seq<ItemView>, met: Seq<ItemView>) -> bool {
    &&& newest_first(out)
    &&& out.to_multiset() == met.to_multiset()
    &&& forall|ms: u64| #[trigger] of_age(out, ms) == of_age(met, ms)
}

/// The items of one age in two lists put together are those of the first,
/// then those of the second.
pub proof fn lemma_of_age_add(a: Seq<ItemView>, b: Seq<ItemView>, ms: u64)
    ensures
        of_age(a + b, ms) == of_age(a, ms) + of_age(b, ms),
    decreases b.len(),
{
    if b.len() == 0 {
        assert(a + b =~= a);
        assert(of_age(a, ms) + of_age(b, ms) =~= of_age(a, ms));
    } else {
        lemma_of_age_add(a, b.drop_last(), ms);
        assert((a + b).drop_last() =~= a + b.drop_last());
        assert((a + b).last() == b.last());
        assert(of_age(a + b, ms) =~= of_age(a, ms) + of_age(b, ms));
    }
}

/// A list without an item of some age has no items of that age.
pub proof fn lemma_of_age_none(a: Seq<ItemView>, ms: u64)
    requires
        forall|k: int| 0 <= k < a.len() ==> (#[trigger] a[k]).modified_ms != ms,
    ensures
        of_age(a, ms) == Seq::<ItemView>::empty(),
    decreases a.len(),
{
    if a.len() > 0 {
        let t = a.drop_last();
        assert forall|k: int| 0 <= k < t.len() implies (#[trigger] t[k]).modified_ms != ms by {
            assert(t[k] == a[k]);
        }
        lemma_of_age_none(t, ms);
    }
}

/// Moving the item at `i` up to `p`, past items that are all older than it,
/// keeps the items and the order within each age, and extends the ordered
/// front by one.
proof fn lemma_move_up(v: Seq<ItemView>, i: int, p: int)
    requires
        0 <= p <= i < v.len(),
        newest_first(v.take(i)),
        forall|k: int| p <= k < i ==> (#[trigger] v[k]).modified_ms < v[i].modified_ms,
        p > 0 ==> v[p - 1].modified_ms >= v[i].modified_ms,
    ensures
        ({
            let w = v.remove(i).insert(p, v[i]);
            &&& w.len() == v.len()
            &&& newest_first(w.take(i + 1))
            &&& w.to_multiset() == v.to_multiset()
            &&& forall|ms: u64| #[trigger] of_age(w, ms) == of_age(v, ms)
            &&& distinct_paths(v) ==> distinct_paths(w)
        }),
{
    broadcast use vstd::seq_lib::group_to_multiset_ensures;

    let x = v[i];
    let w = v.remove(i).insert(p, x);
    assert(w.len() == v.len());
    assert forall|k: int| 0 <= k < w.len() implies #[trigger] w[k] == (if k < p {
        v[k]
    } else if k == p {
        x
    } else if k <= i {
        v[k - 1]
    } else {
        v[k]
    }) by {}
    let front = v.take(i);
    assert forall|a: int, b: int| 0 <= a < b < i + 1 implies (#[trigger] w.take(i + 1)[a]).modified_ms
        >= (#[trigger] w.take(i + 1)[b]).modified_ms by {
        assert(w.take(i + 1)[a] == w[a]);
        assert(w.take(i + 1)[b] == w[b]);
        if p > 0 {
            assert(front[p - 1] == v[p - 1]);
        }
        if a < p {
            assert(front[a] == v[a]);
        } else if a > p {
            assert(front[a - 1] == v[a - 1]);
        }
        if b < p {
            assert(front[b] == v[b]);
        } else if b > p {
            assert(front[b - 1] == v[b - 1]);
        }
    }
    assert(w.to_multiset() == v.to_multiset()) by {
        vstd::seq_lib::to_multiset_remove(v, i);
        vstd::seq_lib::to_multiset_insert(v.remove(i), p, x);
        assert(v.to_multiset().count(x) > 0);
        assert(v.to_multiset().remove(x).insert(x) =~= v.to_multiset());
    }
    let a = v.take(p);
    let b = v.subrange(p, i);
    let c = v.skip(i + 1);
    assert(v =~= a + b + seq![x] + c);
    assert(w =~= a + seq![x] + b + c);
    assert forall|ms: u64| #[trigger] of_age(w, ms) == of_age(v, ms) by {
        lemma_of_age_add(a + b + seq![x], c, ms);
        lemma_of_age_add(a + b, seq![x], ms);
        lemma_of_age_add(a, b, ms);
        lemma_of_age_add(a + seq![x] + b, c, ms);
        lemma_of_age_add(a + seq![x], b, ms);
        lemma_of_age_add(a, seq![x], ms);
        if ms == x.modified_ms {
            assert forall|k: int| 0 <= k < b.len() implies (#[trigger] b[k]).modified_ms != ms by {
                assert(b[k] == v[p + k]);
            }
            lemma_of_age_none(b, ms);
        } else {
            lemma_of_age_none(seq![x], ms);
        }
        assert(of_age(w, ms) =~= of_age(v, ms));
    }
    if distinct_paths(v) {
        assert forall|k: int, l: int| 0 <= k < l < w.len() implies (#[trigger] w[k]).path != (
        #[trigger] w[l]).path by {
            let sk = if k < p { k } else if k == p { i } else if k <= i { k - 1 } else { k };
            let sl = if l < p { l } else if l == p { i } else if l <= i { l - 1 } else { l };
            assert(w[k] == v[sk]);
            assert(w[l] == v[sl]);
            assert(sk != sl);
            if sk < sl {
                assert(v[sk].path != v[sl].path);
            } else {
                assert(v[sl].path != v[sk].path);
            }
        }
    }
}

/// Orders `items` so that the most recently changed comes first; items
/// changed at the same moment keep their order.
pub fn sort_newest_first(items: &mut Vec<WallpaperItem>)
    ensures
        is_listing(views(final(items)@), views(old(items)@)),
        distinct_paths(views(old(items)@)) ==> distinct_paths(views(final(items)@)),
{
    let ghost met = views(items@);
    let n = items.len();
    let mut i: usize = 1;
    if n == 0 {
        return;
    }
    while i < n
        invariant
            1 <= i <= n == items.len(),
            newest_first(views(items@).take(i as int)),
            views(items@).to_multiset() == met.to_multiset(),
            forall|ms: u64| #[trigger] of_age(views(items@), ms) == of_age(met, ms),
            distinct_paths(met) ==> distinct_paths(views(items@)),
        decreases n - i,
    {
        let ghost v = views(items@);
        let age = items[i].modified_ms;
        let mut p: usize = i;
        while p > 0 && items[p - 1].modified_ms < age
            invariant
                p <= i < n == items.len(),
                age == items@[i as int].modified_ms,
                forall|k: int| p <= k < i ==> (#[trigger] v[k]).modified_ms < age,
                v == views(items@),
            decreases p,
        {
            p -= 1;
        }
        proof {
            lemma_move_up(v, i as int, p as int);
        }
        let x = items.remove(i);
        items.insert(p, x);
        assert(views(items@) =~= v.remove(i as int).insert(p as int, v[i as int]));
        i += 1;
    }
    assert(views(items@).take(n as int) =~= views(items@));
}

/// The wallpapers among `files`, each resolved path once, most recently
/// changed first.
///
/// `files` are the files met while walking `roots`, in the order met. A file
/// counts when its name has an image extension, its path could be resolved
/// and the folder it was met under exists. Of several files with one
/// resolved path the first counts. An unknown time of change counts as 0.
pub fn list_wallpapers(roots: &Vec<PackRoot>, files: &Vec<ScannedFile>) -> (out: Vec<WallpaperItem>)
    ensures
        is_listing(views(out@), collected(views(roots@), views(files@))),
        distinct_paths(views(out@)),
{
    let mut out = collect_items(roots, files);
    proof {
        lemma_collected_distinct(views(roots@), views(files@));
    }
    sort_newest_first(&mut out);
    out
}

/// No two collected items share a path.
pub proof fn lemma_collected_distinct(roots: Seq<RootView>, files: Seq<FileView>)
    ensures
        distinct_paths(collected(roots, files)),
    decreases files.len(),
{
    if files.len() > 0 {
        lemma_collected_distinct(roots, files.drop_last());
    }
}

} // verus!
