use vstd::prelude::*;

use crate::text::{ends_with, has_suffix};
use crate::timestamp::Timestamp;

verus! {

/// A raw data file found under a dataset directory, with its creation time.
#[derive(Debug, Clone)]
pub struct MyFile {
    pub name: String,
    pub ctime: Timestamp,
}

impl MyFile {
    pub fn new(nname: String, created_time_sec: Timestamp) -> (r: Self)
        ensures
            r.name == nname,
            r.ctime == created_time_sec,
    {
        MyFile { name: nname, ctime: created_time_sec }
    }
}

/// One entry met while walking a dataset directory: its file name, its full path, whether it
/// is a regular file, and its creation time where the file system reports one.
#[derive(Debug, Clone)]
pub struct WalkEntry {
    pub file_name: String,
    pub path: String,
    pub is_file: bool,
    pub created: Option<Timestamp>,
}

/// `name` ends with one of `exts`.
pub open spec fn has_any_suffix(name: Seq<char>, exts: Seq<String>) -> bool {
    exists|k: int| 0 <= k < exts.len() && has_suffix(name, #[trigger] exts[k]@)
}

/// The entry is a regular file whose name ends with one of `exts`.
pub open spec fn is_raw_file(e: WalkEntry, exts: Seq<String>) -> bool {
    e.is_file && has_any_suffix(e.file_name@, exts)
}

/// The creation time recorded for an entry: its own, else `now`.
pub open spec fn created_or(e: WalkEntry, now: Timestamp) -> Timestamp {
    match e.created {
        Some(t) => t,
        None => now,
    }
}

/// The (path, creation time) of each raw file among `entries`, in walk order.
pub open spec fn raw_files_of(entries: Seq<WalkEntry>, exts: Seq<String>, now: Timestamp) -> Seq<(Seq<char>, Timestamp)>
    decreases entries.len(),
{
    if entries.len() == 0 {
        Seq::empty()
    } else {
        let rest = raw_files_of(entries.drop_last(), exts, now);
        let e = entries.last();
        if is_raw_file(e, exts) {
            rest.push((e.path@, created_or(e, now)))
        } else {
            rest
        }
    }
}

pub open spec fn file_view(f: MyFile) -> (Seq<char>, Timestamp) {
    (f.name@, f.ctime)
}

/// Whether `name` ends with one of `extentions`.
pub fn matches_any_extension(name: &str, extentions: &Vec<String>) -> (r: bool)
    ensures
        r == has_any_suffix(name@, extentions@),
{
    let mut k: usize = 0;
    while k < extentions.len()
        invariant
            k <= extentions@.len(),
            forall|m: int| 0 <= m < k ==> !has_suffix(name@, #[trigger] extentions@[m]@),
        decreases extentions@.len() - k,
    {
        if ends_with(name, extentions[k].as_str()) {
            return true;
        }
        k = k + 1;
    }
    false
}

/// The raw files among the entries of a walk: each regular file whose name ends with one of
/// `extentions`, once, in walk order, with its creation time or else `now`.
pub fn select_raw_files(entries: &Vec<WalkEntry>, extentions: &Vec<String>, now: Timestamp) -> (r: Vec<MyFile>)
    ensures
        r@.map_values(|f: MyFile| file_view(f)) == raw_files_of(entries@, extentions@, now),
{
    let mut found: Vec<MyFile> = Vec::new();
    let mut i: usize = 0;
    while i < entries.len()
        invariant
            i <= entries@.len(),
            found@.map_values(|f: MyFile| file_view(f)) == raw_files_of(entries@.take(i as int), extentions@, now),
        decreases entries@.len() - i,
    {
        let e = &entries[i];
        assert(entries@.take(i + 1).drop_last() =~= entries@.take(i as int));
        if e.is_file && matches_any_extension(e.file_name.as_str(), extentions) {
            let ctime = match e.created {
                Some(t) => t,
                None => now,
            };
            found.push(MyFile::new(e.path.clone(), ctime));
            assert(found@.map_values(|f: MyFile| file_view(f)) =~= raw_files_of(entries@.take(i + 1), extentions@, now));
        }
        i = i + 1;
    }
    assert(entries@.take(entries@.len() as int) =~= entries@);
    found
}

/// A directory waiting to be listed, at `depth` levels below the root.
#[derive(Debug, Clone)]
pub struct PendingDir {
    pub path: String,
    pub depth: u32,
}

/// The children of a listed directory whose names end with `suffix`: dataset directories.
pub open spec fn terminals_of(children: Seq<String>, suffix: Seq<char>) -> Seq<Seq<char>>
    decreases children.len(),
{
    if children.len() == 0 {
        Seq::empty()
    } else {
        let rest = terminals_of(children.drop_last(), suffix);
        if has_suffix(children.last()@, suffix) {
            rest.push(children.last()@)
        } else {
            rest
        }
    }
}

/// The other children: directories to descend into.
pub open spec fn intermediates_of(children: Seq<String>, suffix: Seq<char>) -> Seq<Seq<char>>
    decreases children.len(),
{
    if children.len() == 0 {
        Seq::empty()
    } else {
        let rest = intermediates_of(children.drop_last(), suffix);
        if has_suffix(children.last()@, suffix) {
            rest
        } else {
            rest.push(children.last()@)
        }
    }
}

pub open spec fn pending_view(d: PendingDir) -> (Seq<char>, u32) {
    (d.path@, d.depth)
}

/// The depth-bounded search for dataset directories. The caller lists each directory that
/// `next_dir` hands out and gives the names of its subdirectories to `visit`, which returns
/// the dataset directories among them and queues the others while the depth bound allows.
pub struct DatasetWalker {
    pub terminal_suffix: String,
    pub max_depth: u32,
    pub pending: Vec<PendingDir>,
}

impl DatasetWalker {
    /// Every queued directory lies at most `max_depth` levels below the root.
    pub open spec fn wf(&self) -> bool {
        forall|k: int| 0 <= k < self.pending@.len() ==> #[trigger] self.pending@[k].depth <= self.max_depth
    }

    /// A walk from `root`, which is listed first.
    pub fn new(root: String, terminal_suffix: String, max_depth: u32) -> (r: Self)
        ensures
            r.wf(),
            r.terminal_suffix == terminal_suffix,
            r.max_depth == max_depth,
            r.pending@.len() == 1,
            r.pending@[0].path == root,
            r.pending@[0].depth == 0,
    {
        let mut pending: Vec<PendingDir> = Vec::new();
        pending.push(PendingDir { path: root, depth: 0 });
        DatasetWalker { terminal_suffix, max_depth, pending }
    }

    /// The next directory to list, taken from the queue; `None` when the walk is over.
    pub fn next_dir(&mut self) -> (r: Option<PendingDir>)
        requires
            old(self).wf(),
        ensures
            final(self).wf(),
            final(self).terminal_suffix == old(self).terminal_suffix,
            final(self).max_depth == old(self).max_depth,
            match r {
                Some(d) => {
                    &&& old(self).pending@.len() > 0
                    &&& d == old(self).pending@.last()
                    &&& final(self).pending@ == old(self).pending@.drop_last()
                    &&& d.depth <= old(self).max_depth
                },
                None => old(self).pending@.len() == 0 && final(self).pending@ == old(self).pending@,
            },
    {
        let r = self.pending.pop();
        proof {
            if r is Some {
                assert(old(self).pending@[old(self).pending@.len() - 1].depth <= self.max_depth);
            }
        }
        r
    }

    /// Classifies the subdirectories of `dir`: returns the paths of those whose name ends with
    /// the terminal suffix, in order, and queues the others one level deeper when `dir` lies
    /// above the depth bound. So no directory deeper than `max_depth` is ever listed, and none
    /// deeper than `max_depth + 1` is ever classified.
    pub fn visit(&mut self, dir: &PendingDir, children: Vec<String>) -> (r: Vec<String>)
        requires
            old(self).wf(),
            dir.depth <= old(self).max_depth,
        ensures
            final(self).wf(),
            final(self).terminal_suffix == old(self).terminal_suffix,
            final(self).max_depth == old(self).max_depth,
            r@.map_values(|s: String| s@) == terminals_of(children@, old(self).terminal_suffix@),
            dir.depth < old(self).max_depth ==> final(self).pending@.map_values(|d: PendingDir| pending_view(d))
                == old(self).pending@.map_values(|d: PendingDir| pending_view(d)) + intermediates_of(
                children@,
                old(self).terminal_suffix@,
            ).map_values(|p: Seq<char>| (p, (dir.depth + 1) as u32)),
            dir.depth == old(self).max_depth ==> final(self).pending@ == old(self).pending@,
    {
        let ghost suffix = self.terminal_suffix@;
        let ghost before = self.pending@;
        let descend = dir.depth < self.max_depth;
        let mut terminals: Vec<String> = Vec::new();
        let mut i: usize = 0;
        while i < children.len()
            invariant
                self.wf(),
                suffix == self.terminal_suffix@,
                self.max_depth == old(self).max_depth,
                self.terminal_suffix == old(self).terminal_suffix,
                dir.depth <= self.max_depth,
                descend == (dir.depth < self.max_depth),
                i <= children@.len(),
                terminals@.map_values(|s: String| s@) == terminals_of(children@.take(i as int), suffix),
                descend ==> self.pending@.map_values(|d: PendingDir| pending_view(d))
                    == before.map_values(|d: PendingDir| pending_view(d)) + intermediates_of(
                    children@.take(i as int),
                    suffix,
                ).map_values(|p: Seq<char>| (p, (dir.depth + 1) as u32)),
                !descend ==> self.pending@ == before,
            decreases children@.len() - i,
        {
            let child = &children[i];
            let ghost taken = children@.take(i + 1);
            assert(taken.drop_last() =~= children@.take(i as int));
            assert(taken.last() == children@[i as int]);
            if ends_with(child.as_str(), self.terminal_suffix.as_str()) {
                terminals.push(child.clone());
                assert(terminals@.map_values(|s: String| s@) =~= terminals_of(taken, suffix));
                assert(intermediates_of(taken, suffix) == intermediates_of(children@.take(i as int), suffix));
            } else {
                assert(terminals_of(taken, suffix) == terminals_of(children@.take(i as int), suffix));
                if descend {
                    let ghost prev = self.pending@;
                    self.pending.push(PendingDir { path: child.clone(), depth: dir.depth + 1 });
                    assert(self.pending@.map_values(|d: PendingDir| pending_view(d)) =~= prev.map_values(
                        |d: PendingDir| pending_view(d),
                    ).push((child@, (dir.depth + 1) as u32)));
                    assert(intermediates_of(taken, suffix).map_values(|p: Seq<char>| (p, (dir.depth + 1) as u32))
                        =~= intermediates_of(children@.take(i as int), suffix).map_values(
                        |p: Seq<char>| (p, (dir.depth + 1) as u32),
                    ).push((child@, (dir.depth + 1) as u32)));
                    assert(self.pending@.map_values(|d: PendingDir| pending_view(d)) =~= before.map_values(
                        |d: PendingDir| pending_view(d),
                    ) + intermediates_of(taken, suffix).map_values(|p: Seq<char>| (p, (dir.depth + 1) as u32)));
                }
            }
            i = i + 1;
        }
        assert(children@.take(children@.len() as int) =~= children@);
        terminals
    }
}

} // verus!
