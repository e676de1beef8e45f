//! Breadth-first listing of every file below a local directory, driven one
//! step at a time: the caller reads directories and reports their entries,
//! the walk decides what to descend into, what to list (with its path
//! relative to the root, `/`-separated) and when the tree is too deep.

use std::collections::VecDeque;
use std::path::PathBuf;
use vstd::prelude::*;
use crate::error::{AppError, DetailView, ErrorDetail, ErrorKind, detail_view, error_is};
use crate::text::{join_with_slash, seq_join, string_views};

verus! {

/// Directories at this depth or deeper below the root are not read.
pub const LOCAL_WALK_DEPTH_CAP: u32 = 32;

/// A file found by a walk: its path relative to the root, with `/`
/// separators, and its size in bytes.
#[derive(Debug, Clone)]
pub struct WalkEntry {
    pub rel_path: String,
    pub size: u64,
}

/// What following a symbolic link found.
pub enum LinkTarget {
    /// The link is broken.
    Broken,
    /// A regular file of the given size.
    File(u64),
    /// A directory or another non-file.
    NotFile,
}

/// The type of a directory entry, as reported without following links.
pub enum EntryKind {
    Dir,
    File(u64),
    Symlink(LinkTarget),
    /// A block or character device, a FIFO, a socket.
    Special,
}

/// The size that an entry of kind `k` is listed with, or `None` where it is
/// not listed.
pub open spec fn listed_size(k: EntryKind) -> Option<u64> {
    match k {
        EntryKind::File(size) => Some(size),
        EntryKind::Symlink(LinkTarget::File(size)) => Some(size),
        _ => None,
    }
}

/// A directory waiting to be read: its path, its displayed path, the names
/// leading to it from the root, and its depth below the root.
pub struct PendingDir {
    pub path: PathBuf,
    pub shown: String,
    pub rel: Vec<String>,
    pub depth: u32,
}

/// The state of a walk.
pub struct LocalWalk {
    queue: VecDeque<PendingDir>,
    rel: Vec<String>,
    depth: u32,
    found: Vec<WalkEntry>,
    found_rel: Ghost<Seq<Seq<Seq<char>>>>,
}

fn clone_strings(v: &Vec<String>) -> (r: Vec<String>)
    ensures
        string_views(r@) == string_views(v@),
{
    let mut r: Vec<String> = Vec::new();
    let mut i: usize = 0;
    while i < v.len()
        invariant
            i <= v@.len(),
            string_views(r@) =~= string_views(v@).take(i as int),
        decreases v@.len() - i,
    {
        let ghost old_r = r@;
        r.push(v[i].clone());
        proof {
            assert(r@ =~= old_r.push(v@[i as int]));
            assert(string_views(v@).take(i + 1) =~= string_views(v@).take(i as int).push(v@[i as int]@));
        }
        i = i + 1;
    }
    proof {
        assert(string_views(v@).take(v@.len() as int) =~= string_views(v@));
    }
    r
}

impl LocalWalk {
    /// Directories still to read, in order.
    pub closed spec fn pending(&self) -> Seq<PendingDir> {
        self.queue@
    }

    /// The names leading from the root to the directory being read.
    pub closed spec fn current_rel(&self) -> Seq<Seq<char>> {
        string_views(self.rel@)
    }

    /// The depth of the directory being read.
    pub closed spec fn current_depth(&self) -> u32 {
        self.depth
    }

    /// The files listed so far, in order.
    pub closed spec fn found(&self) -> Seq<WalkEntry> {
        self.found@
    }

    /// For each listed file, the names leading from the root to it.
    pub closed spec fn found_rel(&self) -> Seq<Seq<Seq<char>>> {
        self.found_rel@
    }

    /// The walk's state is consistent: the directory being read is above
    /// the depth cap; every depth is the number of names below the root;
    /// pending directories are in order of depth and at most one level
    /// below the current one; listed files are in order of depth, each
    /// listed by its names joined with `/`.
    pub closed spec fn wf(&self) -> bool {
        &&& self.depth < LOCAL_WALK_DEPTH_CAP
        &&& self.rel@.len() == self.depth
        &&& forall|i: int|
            0 <= i < self.queue@.len() ==> (#[trigger] self.queue@[i]).rel@.len()
                == self.queue@[i].depth && self.depth <= self.queue@[i].depth <= self.depth + 1
        &&& forall|i: int, j: int|
            0 <= i < j < self.queue@.len() ==> (#[trigger] self.queue@[i]).depth <= (
            #[trigger] self.queue@[j]).depth
        &&& self.found_rel@.len() == self.found@.len()
        &&& forall|i: int|
            0 <= i < self.found@.len() ==> (#[trigger] self.found@[i]).rel_path@ == seq_join(
                self.found_rel@[i],
                seq!['/'],
            ) && self.found_rel@[i].len() <= self.depth + 1
        &&& forall|i: int, j: int|
            0 <= i < j < self.found_rel@.len() ==> (#[trigger] self.found_rel@[i]).len() <= (
            #[trigger] self.found_rel@[j]).len()
    }

    /// A walk of `root` (displayed as `shown`): only the root itself, at
    /// depth 0 and with no names below the root, is pending.
    pub fn new(root: PathBuf, shown: String) -> (w: LocalWalk)
        ensures
            w.wf(),
            w.pending().len() == 1,
            w.pending()[0].path == root,
            w.pending()[0].shown@ == shown@,
            w.pending()[0].rel@.len() == 0,
            w.pending()[0].depth == 0,
            w.current_depth() == 0,
            w.found() == Seq::<WalkEntry>::empty(),
    {
        let mut queue = VecDeque::new();
        queue.push_back(PendingDir { path: root, shown, rel: Vec::new(), depth: 0 });
        LocalWalk {
            queue,
            rel: Vec::new(),
            depth: 0,
            found: Vec::new(),
            found_rel: Ghost(Seq::empty()),
        }
    }

    /// Takes the next pending directory. `None` when none is left; the
    /// `local_tree_too_deep` error, naming the directory, when its depth
    /// reaches the cap; else the directory, whose entries the caller then
    /// reports with `visit`.
    pub fn next_dir(&mut self) -> (r: Result<Option<PathBuf>, AppError>)
        requires
            old(self).wf(),
        ensures
            final(self).wf(),
            final(self).found() == old(self).found(),
            final(self).found_rel() == old(self).found_rel(),
            old(self).pending().len() == 0 ==> (r matches Ok(None) && final(self).pending()
                == old(self).pending() && final(self).current_depth()
                == old(self).current_depth() && final(self).current_rel()
                == old(self).current_rel()),
            old(self).pending().len() > 0 ==> final(self).pending()
                == old(self).pending().drop_first(),
            old(self).pending().len() > 0 && old(self).pending()[0].depth >= LOCAL_WALK_DEPTH_CAP
                ==> match r {
                Err(e) => error_is(e, ErrorKind::Other, "local_tree_too_deep"@) && detail_view(
                    e.detail,
                ) == DetailView::TreeTooDeep(
                    old(self).pending()[0].shown@,
                    old(self).pending()[0].depth,
                    LOCAL_WALK_DEPTH_CAP,
                ),
                _ => false,
            },
            old(self).pending().len() > 0 && old(self).pending()[0].depth < LOCAL_WALK_DEPTH_CAP
                ==> (r matches Ok(Some(p)) && p == old(self).pending()[0].path
                && final(self).current_depth() == old(self).pending()[0].depth
                && final(self).current_rel() == string_views(old(self).pending()[0].rel@)),
    {
        match self.queue.pop_front() {
            None => Ok(None),
            Some(dir) => {
                proof {
                    assert(self.queue@ =~= old(self).queue@.drop_first());
                    assert(dir == old(self).queue@[0]);
                }
                if dir.depth >= LOCAL_WALK_DEPTH_CAP {
                    Err(
                        AppError::other(
                            "local_tree_too_deep",
                            ErrorDetail::TreeTooDeep(dir.shown, dir.depth, LOCAL_WALK_DEPTH_CAP),
                        ),
                    )
                } else {
                    proof {
                        assert forall|i: int|
                            0 <= i < self.queue@.len() implies dir.depth <= (
                            #[trigger] self.queue@[i]).depth <= dir.depth + 1 by {
                            assert(self.queue@[i] == old(self).queue@[i + 1]);
                        }
                    }
                    self.depth = dir.depth;
                    self.rel = dir.rel;
                    Ok(Some(dir.path))
                }
            },
        }
    }

    /// Reports the entry named `name` (path `path`, displayed as `shown`) of
    /// the directory being read: a directory is queued one level deeper, a
    /// file or a link to a file is listed with its size and the names from
    /// the root joined by `/`, anything else is skipped.
    pub fn visit(&mut self, path: PathBuf, shown: String, name: String, kind: EntryKind)
        requires
            old(self).wf(),
        ensures
            kind matches EntryKind::File(s) ==> final(self).found().len() == old(self).found().len()
                + 1 && final(self).found().last().size == s,
            kind matches EntryKind::Symlink(LinkTarget::File(s)) ==> final(self).found().len()
                == old(self).found().len() + 1 && final(self).found().last().size == s,
            final(self).wf(),
            final(self).current_depth() == old(self).current_depth(),
            final(self).current_rel() == old(self).current_rel(),
            kind is Dir ==> final(self).pending().len() == old(self).pending().len() + 1
                && final(self).pending().drop_last() == old(self).pending()
                && final(self).pending().last().path == path
                && final(self).pending().last().shown@ == shown@
                && string_views(final(self).pending().last().rel@)
                == old(self).current_rel().push(name@)
                && final(self).pending().last().depth == old(self).current_depth() + 1
                && final(self).found() == old(self).found()
                && final(self).found_rel() == old(self).found_rel(),
            !(kind is Dir) ==> final(self).pending() == old(self).pending(),
            listed_size(kind) is None ==> final(self).found() == old(self).found()
                && final(self).found_rel() == old(self).found_rel(),
            listed_size(kind) matches Some(size) ==> final(self).found().len()
                == old(self).found().len() + 1 && final(self).found().drop_last()
                == old(self).found() && final(self).found().last().size == size
                && final(self).found_rel() == old(self).found_rel().push(
                old(self).current_rel().push(name@),
            ) && final(self).found().last().rel_path@ == seq_join(
                old(self).current_rel().push(name@),
                seq!['/'],
            ),
    {
        match kind {
            EntryKind::Dir => {
                let mut rel = clone_strings(&self.rel);
                rel.push(name);
                proof {
                    assert(string_views(rel@) =~= string_views(self.rel@).push(name@));
                }
                let ghost before = self.queue@;
                self.queue.push_back(PendingDir { path, shown, rel, depth: self.depth + 1 });
                proof {
                    assert(self.queue@.drop_last() =~= before);
                    assert forall|i: int, j: int|
                        0 <= i < j < self.queue@.len() implies (#[trigger] self.queue@[i]).depth
                        <= (#[trigger] self.queue@[j]).depth by {
                        if j < before.len() {
                            assert(self.queue@[i] == before[i] && self.queue@[j] == before[j]);
                        } else {
                            assert(self.queue@[i] == before[i]);
                        }
                    }
                    assert forall|i: int| 0 <= i < self.queue@.len() implies (
                    #[trigger] self.queue@[i]).rel@.len() == self.queue@[i].depth && self.depth
                        <= self.queue@[i].depth <= self.depth + 1 by {
                        if i < before.len() {
                            assert(self.queue@[i] == before[i]);
                        }
                    }
                }
            },
            EntryKind::File(size) => {
                self.list(name, size);
            },
            EntryKind::Symlink(LinkTarget::File(size)) => {
                self.list(name, size);
            },
            _ => {},
        }
    }

    fn list(&mut self, name: String, size: u64)
        requires
            old(self).wf(),
        ensures
            final(self).wf(),
            final(self).current_depth() == old(self).current_depth(),
            final(self).current_rel() == old(self).current_rel(),
            final(self).pending() == old(self).pending(),
            final(self).found().len() == old(self).found().len() + 1,
            final(self).found().drop_last() == old(self).found(),
            final(self).found().last().size == size,
            final(self).found().last().rel_path@ == seq_join(
                old(self).current_rel().push(name@),
                seq!['/'],
            ),
            final(self).found_rel() == old(self).found_rel().push(
                old(self).current_rel().push(name@),
            ),
    {
        let mut parts = clone_strings(&self.rel);
        parts.push(name);
        proof {
            assert(string_views(parts@) =~= string_views(self.rel@).push(name@));
        }
        let rel_path = join_with_slash(&parts);
        let ghost before = self.found@;
        let ghost before_rel = self.found_rel@;
        self.found.push(WalkEntry { rel_path, size });
        self.found_rel = Ghost(self.found_rel@.push(string_views(self.rel@).push(name@)));
        proof {
            assert(self.found@.drop_last() =~= before);
            assert forall|i: int| 0 <= i < self.found@.len() implies (
            #[trigger] self.found@[i]).rel_path@ == seq_join(self.found_rel@[i], seq!['/'])
                && self.found_rel@[i].len() <= self.depth + 1 by {
                if i < before.len() {
                    assert(self.found@[i] == before[i]);
                    assert(self.found_rel@[i] == before_rel[i]);
                }
            }
            assert forall|i: int, j: int| 0 <= i < j < self.found_rel@.len() implies (
            #[trigger] self.found_rel@[i]).len() <= (#[trigger] self.found_rel@[j]).len() by {
                if j < before_rel.len() {
                    assert(self.found_rel@[i] == before_rel[i]);
                    assert(self.found_rel@[j] == before_rel[j]);
                } else {
                    assert(self.found_rel@[i] == before_rel[i]);
                    assert(before[i] == old(self).found@[i]);
                }
            }
        }
    }

    /// The files listed by the walk.
    pub fn finish(self) -> (r: Vec<WalkEntry>)
        ensures
            r@ == self.found(),
    {
        self.found
    }
}

/// Every regular file and every link to a regular file is listed, whatever
/// its size, with exactly that size; directories, other links and special
/// files are not listed.
pub proof fn lemma_every_file_listed(s: u64)
    ensures
        listed_size(EntryKind::File(s)) == Some(s),
        listed_size(EntryKind::Symlink(LinkTarget::File(s))) == Some(s),
        listed_size(EntryKind::Dir) is None,
        listed_size(EntryKind::Special) is None,
        listed_size(EntryKind::Symlink(LinkTarget::Broken)) is None,
        listed_size(EntryKind::Symlink(LinkTarget::NotFile)) is None,
{
}

/// The walk lists files breadth-first: a file is never listed before a file
/// nearer the root, and each is listed by the names from the root to it
/// joined with `/`.
pub proof fn lemma_walk_breadth_first(w: LocalWalk)
    requires
        w.wf(),
    ensures
        w.found_rel().len() == w.found().len(),
        forall|i: int|
            0 <= i < w.found().len() ==> (#[trigger] w.found()[i]).rel_path@ == seq_join(
                w.found_rel()[i],
                seq!['/'],
            ),
        forall|i: int, j: int|
            0 <= i < j < w.found().len() ==> (#[trigger] w.found_rel()[i]).len() <= (
            #[trigger] w.found_rel()[j]).len(),
{
}

} // verus!
