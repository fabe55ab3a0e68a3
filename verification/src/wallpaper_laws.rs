//! What holds of every wallpaper listing.

use crate::wallpapers::{
    candidate, collected, distinct_paths, has_path, is_image_path, is_listing,
    lemma_collected_distinct, newest_first, of_age, FileView, ItemView, RootView,
};
use vstd::prelude::*;

verus! {

/// An item is among those of its own age, and whatever is among those of
/// some age is an item.
proof fn lemma_of_age_members(items: Seq<ItemView>, ms: u64)
    ensures
        forall|k: int|
            0 <= k < items.len() && (#[trigger] items[k]).modified_ms == ms ==> of_age(
                items,
                ms,
            ).contains(items[k]),
        forall|k: int|
            0 <= k < of_age(items, ms).len() ==> items.contains(#[trigger] of_age(items, ms)[k])
                && of_age(items, ms)[k].modified_ms == ms,
    decreases items.len(),
{
    if items.len() > 0 {
        let t = items.drop_last();
        let aged = of_age(items, ms);
        lemma_of_age_members(t, ms);
        assert forall|k: int| 0 <= k < items.len() && (#[trigger] items[k]).modified_ms
            == ms implies aged.contains(items[k]) by {
            if k < t.len() {
                assert(t[k] == items[k]);
                let at = choose|at: int| 0 <= at < of_age(t, ms).len() && of_age(t, ms)[at] == t[k];
                assert(aged[at] == items[k]);
            } else {
                assert(aged[aged.len() - 1] == items[k]);
            }
        }
        assert forall|k: int| 0 <= k < aged.len() implies items.contains(#[trigger] aged[k])
            && aged[k].modified_ms == ms by {
            if k < of_age(t, ms).len() {
                assert(aged[k] == of_age(t, ms)[k]);
                let at = choose|at: int| 0 <= at < t.len() && t[at] == of_age(t, ms)[k];
                assert(items[at] == aged[k]);
            } else {
                assert(items[items.len() - 1] == aged[k]);
            }
        }
    }
}

/// The order of a listing is fixed: two listings of the same items are the
/// same sequence, and so hold the same paths.
pub proof fn lemma_listing_unique(a: Seq<ItemView>, b: Seq<ItemView>, met: Seq<ItemView>)
    requires
        is_listing(a, met),
        is_listing(b, met),
    ensures
        a == b,
        forall|path: Seq<char>| has_path(a, path) == has_path(b, path),
{
    assert forall|ms: u64| #[trigger] of_age(a, ms) == of_age(b, ms) by {
        assert(of_age(a, ms) == of_age(met, ms));
        assert(of_age(b, ms) == of_age(met, ms));
    }
    lemma_ordered_unique(a, b);
}

proof fn lemma_ordered_unique(a: Seq<ItemView>, b: Seq<ItemView>)
    requires
        newest_first(a),
        newest_first(b),
        forall|ms: u64| #[trigger] of_age(a, ms) == of_age(b, ms),
    ensures
        a == b,
    decreases a.len() + b.len(),
{
    if a.len() == 0 && b.len() == 0 {
        assert(a =~= b);
    } else if a.len() == 0 {
        let m = b.last().modified_ms;
        lemma_of_age_members(b, m);
        assert(b[b.len() - 1] == b.last());
        assert(of_age(b, m).contains(b.last()));
        assert(of_age(a, m) == of_age(b, m));
    } else if b.len() == 0 {
        let m = a.last().modified_ms;
        lemma_of_age_members(a, m);
        assert(a[a.len() - 1] == a.last());
        assert(of_age(a, m).contains(a.last()));
        assert(of_age(a, m) == of_age(b, m));
    } else {
        let m = a.last().modified_ms;
        let m2 = b.last().modified_ms;
        // the last items have the same age: each age occurs in both
        assert(m == m2) by {
            lemma_of_age_members(a, m);
            lemma_of_age_members(b, m);
            lemma_of_age_members(a, m2);
            lemma_of_age_members(b, m2);
            assert(a[a.len() - 1] == a.last());
            assert(b[b.len() - 1] == b.last());
            assert(of_age(a, m) == of_age(b, m));
            assert(of_age(a, m2) == of_age(b, m2));
            // an item of age m in b, one of age m2 in a
            let x = of_age(a, m);
            let ia = choose|k: int| 0 <= k < x.len() && x[k] == a.last();
            assert(b.contains(of_age(b, m)[ia]));
            let jb = choose|k: int| 0 <= k < b.len() && b[k] == of_age(b, m)[ia];
            assert(b[jb].modified_ms == m);
            let y = of_age(b, m2);
            let ib = choose|k: int| 0 <= k < y.len() && y[k] == b.last();
            assert(a.contains(of_age(a, m2)[ib]));
            let ja = choose|k: int| 0 <= k < a.len() && a[k] == of_age(a, m2)[ib];
            assert(a[ja].modified_ms == m2);
            if jb < b.len() - 1 {
                assert(b[jb].modified_ms >= b[b.len() - 1].modified_ms);
            }
            if ja < a.len() - 1 {
                assert(a[ja].modified_ms >= a[a.len() - 1].modified_ms);
            }
        }
        assert(of_age(a, m) == of_age(b, m));
        assert(of_age(a, m).last() == a.last());
        assert(of_age(b, m).last() == b.last());
        let a0 = a.drop_last();
        let b0 = b.drop_last();
        assert forall|ms: u64| #[trigger] of_age(a0, ms) == of_age(b0, ms) by {
            assert(of_age(a, ms) == of_age(b, ms));
            if ms == m {
                assert(of_age(a, ms).drop_last() =~= of_age(a0, ms));
                assert(of_age(b, ms).drop_last() =~= of_age(b0, ms));
            }
        }
        assert forall|i: int, j: int| 0 <= i < j < a0.len() implies (#[trigger] a0[i]).modified_ms
            >= (#[trigger] a0[j]).modified_ms by {
            assert(a0[i] == a[i] && a0[j] == a[j]);
        }
        assert forall|i: int, j: int| 0 <= i < j < b0.len() implies (#[trigger] b0[i]).modified_ms
            >= (#[trigger] b0[j]).modified_ms by {
            assert(b0[i] == b[i] && b0[j] == b[j]);
        }
        lemma_ordered_unique(a0, b0);
        assert(a =~= a0.push(a.last()));
        assert(b =~= b0.push(b.last()));
    }
}

/// A listing holds the paths of the items it was made of, no others.
pub proof fn lemma_listing_paths(out: Seq<ItemView>, met: Seq<ItemView>)
    requires
        is_listing(out, met),
    ensures
        forall|path: Seq<char>| has_path(out, path) == has_path(met, path),
{
    broadcast use vstd::seq_lib::group_to_multiset_ensures;

    assert forall|path: Seq<char>| has_path(out, path) == has_path(met, path) by {
        if has_path(out, path) {
            let i = choose|i: int| 0 <= i < out.len() && (#[trigger] out[i]).path == path;
            assert(out.contains(out[i]));
            assert(met.to_multiset().count(out[i]) > 0);
            assert(met.contains(out[i]));
            let j = choose|j: int| 0 <= j < met.len() && met[j] == out[i];
            assert(met[j].path == path);
        }
        if has_path(met, path) {
            let i = choose|i: int| 0 <= i < met.len() && (#[trigger] met[i]).path == path;
            assert(met.contains(met[i]));
            assert(out.to_multiset().count(met[i]) > 0);
            assert(out.contains(met[i]));
            let j = choose|j: int| 0 <= j < out.len() && out[j] == met[i];
            assert(out[j].path == path);
        }
    }
}

/// Ordering the items does not make two of them share a path.
pub proof fn lemma_listing_distinct(out: Seq<ItemView>, met: Seq<ItemView>)
    requires
        is_listing(out, met),
        distinct_paths(met),
    ensures
        distinct_paths(out),
{
    broadcast use vstd::seq_lib::group_to_multiset_ensures;

    assert(met.no_duplicates()) by {
        assert forall|i: int, j: int| 0 <= i < met.len() && 0 <= j < met.len() && i != j implies met[i]
            != met[j] by {
            if i < j {
                assert(met[i].path != met[j].path);
            } else {
                assert(met[j].path != met[i].path);
            }
        }
    }
    met.lemma_multiset_has_no_duplicates();
    out.lemma_multiset_has_no_duplicates_conv();
    assert forall|i: int, j: int| 0 <= i < j < out.len() implies (#[trigger] out[i]).path != (
    #[trigger] out[j]).path by {
        assert(out[i] != out[j]);
        assert(out.contains(out[i]));
        assert(out.contains(out[j]));
        assert(met.to_multiset().count(out[i]) > 0);
        assert(met.to_multiset().count(out[j]) > 0);
        assert(met.contains(out[i]));
        assert(met.contains(out[j]));
        let x = choose|x: int| 0 <= x < met.len() && met[x] == out[i];
        let y = choose|y: int| 0 <= y < met.len() && met[y] == out[j];
        if x < y {
            assert(met[x].path != met[y].path);
        } else {
            assert(met[y].path != met[x].path);
        }
    }
}

/// The path of every file that counts is collected.
proof fn lemma_candidate_collected(roots: Seq<RootView>, files: Seq<FileView>, k: int)
    requires
        0 <= k < files.len(),
        candidate(roots, files[k]) is Some,
    ensures
        has_path(collected(roots, files), candidate(roots, files[k])->0.path),
    decreases files.len(),
{
    let path = candidate(roots, files[k])->0.path;
    let before = collected(roots, files.drop_last());
    let all = collected(roots, files);
    if k < files.len() - 1 {
        assert(files.drop_last()[k] == files[k]);
        lemma_candidate_collected(roots, files.drop_last(), k);
        let i = choose|i: int| 0 <= i < before.len() && (#[trigger] before[i]).path == path;
        assert(all[i] == before[i]);
    } else {
        assert(files.last() == files[k]);
        if has_path(before, path) {
            let i = choose|i: int| 0 <= i < before.len() && (#[trigger] before[i]).path == path;
            assert(all[i] == before[i]);
        } else {
            assert(all[all.len() - 1].path == path);
        }
    }
}

/// A file that counts is listed exactly once, however many of the files met
/// resolve to its path: one item of the listing has that path, no second
/// one.
pub proof fn lemma_listed_once(
    roots: Seq<RootView>,
    files: Seq<FileView>,
    k: int,
    out: Seq<ItemView>,
)
    requires
        0 <= k < files.len(),
        candidate(roots, files[k]) is Some,
        is_listing(out, collected(roots, files)),
    ensures
        exists|i: int|
            0 <= i < out.len() && (#[trigger] out[i]).path == candidate(roots, files[k])->0.path
                && forall|j: int|
                0 <= j < out.len() && (#[trigger] out[j]).path == out[i].path ==> j == i,
{
    let met = collected(roots, files);
    let path = candidate(roots, files[k])->0.path;
    lemma_candidate_collected(roots, files, k);
    lemma_listing_paths(out, met);
    lemma_collected_distinct(roots, files);
    lemma_listing_distinct(out, met);
    assert(has_path(out, path));
    let i = choose|i: int| 0 <= i < out.len() && (#[trigger] out[i]).path == path;
    assert forall|j: int| 0 <= j < out.len() && (#[trigger] out[j]).path == out[i].path implies j
        == i by {
        if j < i {
            assert(out[j].path != out[i].path);
        } else if i < j {
            assert(out[i].path != out[j].path);
        }
    }
}

/// A file that does not count changes nothing: the items collected are those
/// collected without it.
pub proof fn lemma_skipped_file(roots: Seq<RootView>, files: Seq<FileView>, k: int)
    requires
        0 <= k < files.len(),
        candidate(roots, files[k]) is None,
    ensures
        collected(roots, files.remove(k)) == collected(roots, files),
    decreases files.len(),
{
    if k == files.len() - 1 {
        assert(files.remove(k) =~= files.drop_last());
    } else {
        assert(files.drop_last()[k] == files[k]);
        lemma_skipped_file(roots, files.drop_last(), k);
        assert(files.remove(k).drop_last() =~= files.drop_last().remove(k));
        assert(files.remove(k).last() == files.last());
    }
}

/// A folder that does not exist adds nothing to the listing: whatever is
/// reported as met under it could as well have been left out.
pub proof fn lemma_missing_root_adds_nothing(roots: Seq<RootView>, files: Seq<FileView>, k: int)
    requires
        0 <= k < files.len(),
        files[k].root < roots.len(),
        roots[files[k].root as int].dir is None,
    ensures
        candidate(roots, files[k]) is None,
        collected(roots, files.remove(k)) == collected(roots, files),
{
    lemma_skipped_file(roots, files, k);
}

/// Whether a file counts: it has an image extension, could be resolved,
/// and was met under a folder that exists.
pub open spec fn counts(roots: Seq<RootView>, f: FileView) -> bool {
    &&& is_image_path(f.path)
    &&& f.canonical is Some
    &&& f.root < roots.len()
    &&& roots[f.root as int].dir is Some
}

/// Exactly the files that count add an item. The item has the path the file
/// resolves to, and the pack of the folder when the folder has one, wherever
/// the file resolves to.
pub proof fn lemma_what_counts(roots: Seq<RootView>, f: FileView)
    ensures
        candidate(roots, f) is Some <==> counts(roots, f),
        counts(roots, f) ==> candidate(roots, f)->0.path == f.canonical->0,
        counts(roots, f) && roots[f.root as int].pack is Some ==> candidate(roots, f)->0.pack
            == roots[f.root as int].pack->0,
{
}

/// Every collected item comes from a file that counts.
proof fn lemma_collected_from_files(roots: Seq<RootView>, files: Seq<FileView>, path: Seq<char>)
    requires
        has_path(collected(roots, files), path),
    ensures
        exists|k: int|
            0 <= k < files.len() && counts(roots, #[trigger] files[k]) && files[k].canonical
                == Some(path),
    decreases files.len(),
{
    let all = collected(roots, files);
    let i = choose|i: int| 0 <= i < all.len() && (#[trigger] all[i]).path == path;
    if files.len() > 0 {
        let before = collected(roots, files.drop_last());
        if i < before.len() && before[i] == all[i] {
            assert(has_path(before, path));
            lemma_collected_from_files(roots, files.drop_last(), path);
            let k = choose|k: int|
                0 <= k < files.drop_last().len() && counts(roots, #[trigger] files.drop_last()[k])
                    && files.drop_last()[k].canonical == Some(path);
            assert(files[k] == files.drop_last()[k]);
        } else {
            lemma_what_counts(roots, files.last());
            assert(files[files.len() - 1] == files.last());
        }
    }
}

/// The paths of a listing are exactly the paths that the files that count
/// resolve to: every such file is listed, and nothing else is.
pub proof fn lemma_listing_holds_the_image_files(
    roots: Seq<RootView>,
    files: Seq<FileView>,
    out: Seq<ItemView>,
)
    requires
        is_listing(out, collected(roots, files)),
    ensures
        forall|path: Seq<char>|
            has_path(out, path) <==> exists|k: int|
                0 <= k < files.len() && counts(roots, #[trigger] files[k]) && files[k].canonical
                    == Some(path),
{
    let met = collected(roots, files);
    lemma_listing_paths(out, met);
    assert forall|path: Seq<char>|
        has_path(out, path) <==> exists|k: int|
            0 <= k < files.len() && counts(roots, #[trigger] files[k]) && files[k].canonical
                == Some(path) by {
        if has_path(out, path) {
            assert(has_path(met, path));
            lemma_collected_from_files(roots, files, path);
        }
        if exists|k: int|
            0 <= k < files.len() && counts(roots, #[trigger] files[k]) && files[k].canonical
                == Some(path) {
            let k = choose|k: int|
                0 <= k < files.len() && counts(roots, #[trigger] files[k]) && files[k].canonical
                    == Some(path);
            lemma_what_counts(roots, files[k]);
            lemma_candidate_collected(roots, files, k);
            assert(has_path(met, path));
        }
    }
}

} // verus!
