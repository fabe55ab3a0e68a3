//! The order in which the folders are walked, and the record of what was
//! met on the way.
//!
//! The walk starts with the roots that exist. The caller asks for the next
//! folder, reads it, and reports every entry: a folder is kept for later, a
//! file is recorded. The folder reported last is walked next, so the walk
//! goes down before it goes on, and begins with the last root.

use crate::text::{lemma_views_push, views};
use crate::wallpapers::{
    collected, distinct_paths, is_listing, list_wallpapers, PackRoot, RootView, ScannedFile,
    WallpaperItem,
};
use vstd::prelude::*;

verus! {

/// A folder that waits to be walked.
#[derive(Debug, PartialEq, Eq)]
pub struct Folder {
    pub path: String,
    /// The root under which the folder lies: an index into the roots.
    pub root: usize,
}

impl View for Folder {
    type V = (Seq<char>, nat);

    open spec fn view(&self) -> (Seq<char>, nat) {
        (self.path@, self.root as nat)
    }
}

/// The state of a walk.
#[derive(Debug, PartialEq, Eq)]
pub struct Walk {
    /// The folders still to walk; the last one is next.
    pub pending: Vec<Folder>,
    /// The files met so far, in the order met.
    pub files: Vec<ScannedFile>,
}

/// The roots that exist, as folders to walk, in the order of the roots.
pub open spec fn root_folders(roots: Seq<RootView>) -> Seq<(Seq<char>, nat)>
    decreases roots.len(),
{
    if roots.len() == 0 {
        Seq::empty()
    } else {
        let before = root_folders(roots.drop_last());
        match roots.last().dir {
            Some(dir) => before.push((dir, (roots.len() - 1) as nat)),
            None => before,
        }
    }
}

impl Walk {
    /// A walk of `roots` that has not begun.
    pub fn start(roots: &Vec<PackRoot>) -> (walk: Walk)
        ensures
            views(walk.pending@) == root_folders(views(roots@)),
            walk.files.len() == 0,
    {
        let mut pending: Vec<Folder> = Vec::new();
        let mut i: usize = 0;
        assert(views(roots@).take(0) =~= Seq::<RootView>::empty());
        assert(views(pending@) =~= Seq::<(Seq<char>, nat)>::empty());
        while i < roots.len()
            invariant
                i <= roots.len(),
                views(pending@) == root_folders(views(roots@).take(i as int)),
            decreases roots.len() - i,
        {
            proof {
                assert(views(roots@).take(i + 1).drop_last() =~= views(roots@).take(i as int));
                assert(views(roots@).take(i + 1).last() == roots@[i as int]@);
            }
            match &roots[i].dir {
                Some(dir) => {
                    let folder = Folder { path: dir.clone(), root: i };
                    proof {
                        lemma_views_push(pending@, folder);
                    }
                    pending.push(folder);
                },
                None => {},
            }
            i += 1;
        }
        assert(views(roots@).take(roots@.len() as int) =~= views(roots@));
        Walk { pending, files: Vec::new() }
    }

    /// The folder to walk next: the one that was kept last. `None` when the
    /// walk is over.
    pub fn next_folder(&mut self) -> (next: Option<Folder>)
        ensures
            final(self).files == old(self).files,
            match next {
                Some(folder) => old(self).pending.len() > 0 && folder == old(
                    self,
                ).pending@.last() && final(self).pending@ == old(self).pending@.drop_last(),
                None => old(self).pending.len() == 0 && final(self).pending.len() == 0,
            },
    {
        self.pending.pop()
    }

    /// Keeps a folder that was met under the root `root`, to walk it later.
    pub fn found_folder(&mut self, path: String, root: usize)
        ensures
            final(self).files == old(self).files,
            final(self).pending@ == old(self).pending@.push(Folder { path, root }),
    {
        self.pending.push(Folder { path, root });
    }

    /// Records a file that was met.
    pub fn found_file(&mut self, file: ScannedFile)
        ensures
            final(self).pending == old(self).pending,
            final(self).files@ == old(self).files@.push(file),
    {
        self.files.push(file);
    }

    /// The listing of the wallpapers among the files that were met.
    pub fn finish(self, roots: &Vec<PackRoot>) -> (out: Vec<WallpaperItem>)
        ensures
            is_listing(views(out@), collected(views(roots@), views(self.files@))),
            distinct_paths(views(out@)),
    {
        list_wallpapers(roots, &self.files)
    }
}

} // verus!
