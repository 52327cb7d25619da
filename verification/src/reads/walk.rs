//! Collecting the files below a directory without entering what is excluded.
use crate::reads::scope::{self, LocatedPath, PathView};
use crate::text;
use vstd::prelude::*;

verus! {

/// Something that a directory holds.
#[derive(Debug)]
pub struct DirectoryEntry {
    pub name: String,
    pub is_dir: bool,
    /// Whether it is a directory with an `aiken.toml` file of its own.
    pub has_manifest: bool,
    /// Its path as it is written.
    pub written: String,
}

/// A walk: the files that it found, the directories that it has yet to visit, and
/// whether it left out a project of its own.
#[derive(Debug)]
pub struct FileWalk {
    pub files: Vec<LocatedPath>,
    pub to_visit: Vec<LocatedPath>,
    pub nested: bool,
}

/// What paths say.
pub open spec fn path_views(paths: Seq<LocatedPath>) -> Seq<PathView> {
    Seq::new(paths.len(), |i: int| paths[i]@)
}

/// What is known of the first `n` directories of a path.
pub open spec fn known_manifests(manifests: Seq<bool>, n: nat) -> Seq<bool> {
    Seq::new(n, |i: int| i < manifests.len() && manifests[i])
}

/// The path of an entry of the directory.
pub open spec fn child(dir: PathView, entry: DirectoryEntry) -> PathView {
    PathView {
        parts: dir.parts.push(entry.name@),
        manifests: known_manifests(dir.manifests, dir.parts.len()).push(entry.has_manifest),
        is_dir: entry.is_dir,
        written: entry.written@,
    }
}

/// The files among the entries of the directory.
pub open spec fn files_in(dir: PathView, entries: Seq<DirectoryEntry>) -> Seq<PathView>
    decreases entries.len(),
{
    if entries.len() == 0 {
        Seq::empty()
    } else {
        let front = files_in(dir, entries.drop_last());
        if entries.last().is_dir {
            front
        } else {
            front.push(child(dir, entries.last()))
        }
    }
}

/// The directories among the entries of the directory that are not ignored.
pub open spec fn open_dirs_in(
    root: Seq<Seq<char>>,
    dir: PathView,
    entries: Seq<DirectoryEntry>,
) -> Seq<PathView>
    decreases entries.len(),
{
    if entries.len() == 0 {
        Seq::empty()
    } else {
        let front = open_dirs_in(root, dir, entries.drop_last());
        let last = child(dir, entries.last());
        if entries.last().is_dir && !scope::ignored(root, last) {
            front.push(last)
        } else {
            front
        }
    }
}

/// Whether one of the entries is a project of its own.
pub open spec fn holds_project(entries: Seq<DirectoryEntry>) -> bool {
    exists|i: int|
        0 <= i < entries.len() && (#[trigger] entries[i]).is_dir && entries[i].has_manifest
}

/// The directory that holds what the path leads to.
pub open spec fn holder(path: PathView) -> PathView {
    PathView {
        parts: path.parts.drop_last(),
        manifests: path.manifests.take(path.parts.len() - 1),
        is_dir: true,
        written: path.written,
    }
}

/// Whether the walk keeps to the audit: what it has yet to visit are directories
/// that are not ignored, and no directory that holds a file it found is.
pub open spec fn keeps_to_audit(
    root: Seq<Seq<char>>,
    files: Seq<PathView>,
    to_visit: Seq<PathView>,
) -> bool {
    &&& forall|i: int|
        0 <= i < to_visit.len() ==> (#[trigger] to_visit[i]).is_dir && !scope::ignored(
            root,
            to_visit[i],
        )
    &&& forall|i: int| 0 <= i < files.len() ==> !scope::ignored(root, holder(#[trigger] files[i]))
}

fn make_child(dir: &LocatedPath, entry: DirectoryEntry) -> (r: LocatedPath)
    ensures
        r@ == child(dir@, entry),
{
    let mut parts: Vec<String> = Vec::new();
    let mut manifests: Vec<bool> = Vec::new();
    let ghost known = known_manifests(dir@.manifests, dir@.parts.len());
    let mut i: usize = 0;
    while i < dir.parts.len()
        invariant
            i <= dir.parts.len(),
            known == known_manifests(dir@.manifests, dir@.parts.len()),
            parts.len() == i,
            manifests.len() == i,
            forall|k: int| 0 <= k < i ==> #[trigger] parts@[k]@ == dir@.parts[k],
            forall|k: int| 0 <= k < i ==> #[trigger] manifests@[k] == known[k],
        decreases dir.parts.len() - i,
    {
        parts.push(dir.parts[i].clone());
        manifests.push(i < dir.manifests.len() && dir.manifests[i]);
        i += 1;
    }
    let has_manifest = entry.has_manifest;
    let is_dir = entry.is_dir;
    parts.push(entry.name);
    manifests.push(has_manifest);
    assert(text::texts(parts@) =~= dir@.parts.push(entry.name@));
    assert(manifests@ =~= known.push(has_manifest));
    LocatedPath { parts, manifests, is_dir, written: entry.written }
}

impl FileWalk {
    /// The walk from a path: of a file, that file alone.
    pub fn start(target: LocatedPath, is_file: bool) -> (r: FileWalk)
        ensures
            path_views(r.files@) == if is_file {
                seq![target@]
            } else {
                Seq::empty()
            },
            path_views(r.to_visit@) == if is_file {
                Seq::empty()
            } else {
                seq![target@]
            },
            !r.nested,
    {
        let mut files: Vec<LocatedPath> = Vec::new();
        let mut to_visit: Vec<LocatedPath> = Vec::new();
        if is_file {
            files.push(target);
        } else {
            to_visit.push(target);
        }
        assert(path_views(files@) =~= if is_file {
            seq![target@]
        } else {
            Seq::empty()
        });
        assert(path_views(to_visit@) =~= if is_file {
            Seq::empty()
        } else {
            seq![target@]
        });
        FileWalk { files, to_visit, nested: false }
    }

    /// The directory to visit next, which the walk then no longer has to visit.
    pub fn next_dir(&mut self) -> (r: Option<LocatedPath>)
        ensures
            final(self).files == old(self).files,
            final(self).nested == old(self).nested,
            match r {
                Some(dir) => path_views(old(self).to_visit@) == path_views(
                    final(self).to_visit@,
                ).push(dir@),
                None => old(self).to_visit@.len() == 0 && final(self).to_visit@.len() == 0,
            },
    {
        match self.to_visit.pop() {
            Some(dir) => {
                assert(path_views(old(self).to_visit@) =~= path_views(self.to_visit@).push(dir@));
                Some(dir)
            },
            None => None,
        }
    }

    /// Takes up what a directory holds: its files, and the directories in it
    /// that are not ignored.
    pub fn visit(
        &mut self,
        project_root: &Vec<String>,
        dir: &LocatedPath,
        entries: Vec<DirectoryEntry>,
    )
        ensures
            path_views(final(self).files@) == path_views(old(self).files@) + files_in(
                dir@,
                entries@,
            ),
            path_views(final(self).to_visit@) == path_views(old(self).to_visit@) + open_dirs_in(
                text::texts(project_root@),
                dir@,
                entries@,
            ),
            final(self).nested == (old(self).nested || holds_project(entries@)),
    {
        let ghost all = entries@;
        let ghost before = self.nested;
        let ghost root = text::texts(project_root@);
        let ghost files = path_views(self.files@);
        let ghost dirs = path_views(self.to_visit@);
        assert(files + files_in(dir@, all.take(0)) =~= files);
        assert(dirs + open_dirs_in(root, dir@, all.take(0)) =~= dirs);
        for entry in it: entries
            invariant
                it.seq() == all,
                root == text::texts(project_root@),
                path_views(self.files@) == files + files_in(dir@, all.take(it.index() as int)),
                path_views(self.to_visit@) == dirs + open_dirs_in(
                    root,
                    dir@,
                    all.take(it.index() as int),
                ),
                self.nested == (before || holds_project(all.take(it.index() as int))),
        {
            let ghost k = it.index() as int;
            let ghost held_files = self.files@;
            let ghost held_dirs = self.to_visit@;
            assert(all.take(k + 1).drop_last() =~= all.take(k));
            assert(all.take(k + 1).last() == entry);
            let is_dir = entry.is_dir;
            let has_manifest = entry.has_manifest;
            let path = make_child(dir, entry);
            proof {
                lemma_one_more_entry(all, k);
            }
            if is_dir {
                if has_manifest {
                    self.nested = true;
                }
                if !scope::is_ignored_path(project_root, &path) {
                    self.to_visit.push(path);
                    assert(path_views(self.to_visit@) =~= path_views(held_dirs).push(path@));
                }
            } else {
                self.files.push(path);
                assert(path_views(self.files@) =~= path_views(held_files).push(path@));
            }
            assert(path_views(self.files@) =~= files + files_in(dir@, all.take(k + 1)));
            assert(path_views(self.to_visit@) =~= dirs + open_dirs_in(
                root,
                dir@,
                all.take(k + 1),
            ));
        }
        assert(all.take(all.len() as int) =~= all);
    }

    /// The files that the walk found, in the order of their paths.
    pub fn finish(self) -> (r: Vec<LocatedPath>)
        ensures
            in_order(path_views(r@)),
            path_views(r@).to_multiset() == path_views(self.files@).to_multiset(),
    {
        sort_paths(self.files)
    }
}

proof fn lemma_one_more_entry(entries: Seq<DirectoryEntry>, k: int)
    requires
        0 <= k < entries.len(),
    ensures
        holds_project(entries.take(k + 1)) == (holds_project(entries.take(k)) || (
        entries[k].is_dir && entries[k].has_manifest)),
{
    let front = entries.take(k);
    let longer = entries.take(k + 1);
    assert(longer[k] == entries[k]);
    if holds_project(front) {
        let i = choose|i: int|
            0 <= i < front.len() && (#[trigger] front[i]).is_dir && front[i].has_manifest;
        assert(longer[i] == front[i]);
    }
    if holds_project(longer) {
        let i = choose|i: int|
            0 <= i < longer.len() && (#[trigger] longer[i]).is_dir && longer[i].has_manifest;
        if i < k {
            assert(front[i] == longer[i]);
        }
    }
}

proof fn lemma_child_holder(root: Seq<Seq<char>>, dir: PathView, entry: DirectoryEntry)
    requires
        dir.is_dir,
    ensures
        scope::ignored(root, holder(child(dir, entry))) == scope::ignored(root, dir),
{
    let back = holder(child(dir, entry));
    assert(back.parts =~= dir.parts);
    assert(back.manifests =~= known_manifests(dir.manifests, dir.parts.len()));
    assert forall|i: int| 0 <= i < dir.parts.len() implies scope::leaves_audit(back, i)
        == scope::leaves_audit(dir, i) by {}
    if scope::ignored(root, dir) {
        let i = choose|i: int|
            root.len() <= i < dir.parts.len() && #[trigger] scope::leaves_audit(dir, i);
        assert(scope::leaves_audit(back, i));
    }
    if scope::ignored(root, back) {
        let i = choose|i: int|
            root.len() <= i < back.parts.len() && #[trigger] scope::leaves_audit(back, i);
        assert(scope::leaves_audit(dir, i));
    }
}

proof fn lemma_entries_keep_to_audit(
    root: Seq<Seq<char>>,
    dir: PathView,
    entries: Seq<DirectoryEntry>,
)
    requires
        dir.is_dir,
        !scope::ignored(root, dir),
    ensures
        keeps_to_audit(root, files_in(dir, entries), open_dirs_in(root, dir, entries)),
    decreases entries.len(),
{
    if entries.len() > 0 {
        lemma_entries_keep_to_audit(root, dir, entries.drop_last());
        lemma_child_holder(root, dir, entries.last());
    }
}

/// A walk that keeps to the audit still does after visiting the directory that
/// it said to visit next.
pub proof fn law_walk_never_enters_what_is_ignored(
    root: Seq<Seq<char>>,
    files: Seq<PathView>,
    to_visit: Seq<PathView>,
    dir: PathView,
    entries: Seq<DirectoryEntry>,
)
    requires
        keeps_to_audit(root, files, to_visit.push(dir)),
    ensures
        keeps_to_audit(
            root,
            files + files_in(dir, entries),
            to_visit + open_dirs_in(root, dir, entries),
        ),
{
    assert(to_visit.push(dir)[to_visit.len() as int] == dir);
    lemma_entries_keep_to_audit(root, dir, entries);
    assert forall|i: int| 0 <= i < to_visit.len() implies (#[trigger] to_visit[i]).is_dir
        && !scope::ignored(root, to_visit[i]) by {
        assert(to_visit.push(dir)[i] == to_visit[i]);
    }
}

/// The files found and the directories left to visit after visiting one directory
/// after the other, with what each of them holds.
pub open spec fn walked(
    root: Seq<Seq<char>>,
    files: Seq<PathView>,
    to_visit: Seq<PathView>,
    contents: Seq<Seq<DirectoryEntry>>,
) -> (Seq<PathView>, Seq<PathView>)
    decreases contents.len(),
{
    if contents.len() == 0 || to_visit.len() == 0 {
        (files, to_visit)
    } else {
        let dir = to_visit.last();
        walked(
            root,
            files + files_in(dir, contents[0]),
            to_visit.drop_last() + open_dirs_in(root, dir, contents[0]),
            contents.skip(1),
        )
    }
}

proof fn lemma_walked_keeps_to_audit(
    root: Seq<Seq<char>>,
    files: Seq<PathView>,
    to_visit: Seq<PathView>,
    contents: Seq<Seq<DirectoryEntry>>,
)
    requires
        keeps_to_audit(root, files, to_visit),
    ensures
        keeps_to_audit(
            root,
            walked(root, files, to_visit, contents).0,
            walked(root, files, to_visit, contents).1,
        ),
    decreases contents.len(),
{
    if contents.len() > 0 && to_visit.len() > 0 {
        let dir = to_visit.last();
        assert(to_visit.drop_last().push(dir) =~= to_visit);
        law_walk_never_enters_what_is_ignored(
            root,
            files,
            to_visit.drop_last(),
            dir,
            contents[0],
        );
        lemma_walked_keeps_to_audit(
            root,
            files + files_in(dir, contents[0]),
            to_visit.drop_last() + open_dirs_in(root, dir, contents[0]),
            contents.skip(1),
        );
    }
}

/// A whole walk from a directory of the audit, whatever the directories hold, finds
/// no file in an ignored directory.
pub proof fn law_walks_find_nothing_that_is_ignored(
    root: Seq<Seq<char>>,
    target: PathView,
    contents: Seq<Seq<DirectoryEntry>>,
)
    requires
        target.is_dir,
        !scope::ignored(root, target),
    ensures
        forall|i: int|
            0 <= i < walked(root, Seq::empty(), seq![target], contents).0.len()
                ==> !scope::ignored(
                root,
                holder(#[trigger] walked(root, Seq::empty(), seq![target], contents).0[i]),
            ),
{
    lemma_walked_keeps_to_audit(root, Seq::empty(), seq![target], contents);
}

/// The directories visited one after the other, with what each of them holds.
pub open spec fn visited(
    root: Seq<Seq<char>>,
    to_visit: Seq<PathView>,
    contents: Seq<Seq<DirectoryEntry>>,
) -> Seq<PathView>
    decreases contents.len(),
{
    if contents.len() == 0 || to_visit.len() == 0 {
        Seq::empty()
    } else {
        let dir = to_visit.last();
        seq![dir] + visited(
            root,
            to_visit.drop_last() + open_dirs_in(root, dir, contents[0]),
            contents.skip(1),
        )
    }
}

proof fn lemma_visited_len(
    root: Seq<Seq<char>>,
    to_visit: Seq<PathView>,
    contents: Seq<Seq<DirectoryEntry>>,
)
    ensures
        visited(root, to_visit, contents).len() <= contents.len(),
    decreases contents.len(),
{
    if contents.len() > 0 && to_visit.len() > 0 {
        lemma_visited_len(
            root,
            to_visit.drop_last() + open_dirs_in(root, to_visit.last(), contents[0]),
            contents.skip(1),
        );
    }
}

proof fn lemma_every_entry_is_taken_up(
    root: Seq<Seq<char>>,
    dir: PathView,
    entries: Seq<DirectoryEntry>,
    j: int,
)
    requires
        0 <= j < entries.len(),
    ensures
        !entries[j].is_dir ==> files_in(dir, entries).contains(child(dir, entries[j])),
        entries[j].is_dir && !scope::ignored(root, child(dir, entries[j])) ==> open_dirs_in(
            root,
            dir,
            entries,
        ).contains(child(dir, entries[j])),
    decreases entries.len(),
{
    let front = entries.drop_last();
    let path = child(dir, entries[j]);
    let files = files_in(dir, front);
    let dirs = open_dirs_in(root, dir, front);
    let last = child(dir, entries.last());
    if j < entries.len() - 1 {
        lemma_every_entry_is_taken_up(root, dir, front, j);
        assert(front[j] == entries[j]);
        if files.contains(path) {
            let i = choose|i: int| 0 <= i < files.len() && files[i] == path;
            assert(files.push(last)[i] == path);
            assert(files_in(dir, entries)[i] == path);
        }
        if dirs.contains(path) {
            let i = choose|i: int| 0 <= i < dirs.len() && dirs[i] == path;
            assert(dirs.push(last)[i] == path);
            assert(open_dirs_in(root, dir, entries)[i] == path);
        }
    } else {
        assert(files.push(last)[files.len() as int] == last);
        assert(dirs.push(last)[dirs.len() as int] == last);
    }
}

proof fn lemma_found_files_stay(
    root: Seq<Seq<char>>,
    files: Seq<PathView>,
    to_visit: Seq<PathView>,
    contents: Seq<Seq<DirectoryEntry>>,
    path: PathView,
)
    requires
        files.contains(path),
    ensures
        walked(root, files, to_visit, contents).0.contains(path),
    decreases contents.len(),
{
    if contents.len() > 0 && to_visit.len() > 0 {
        let dir = to_visit.last();
        let more = files + files_in(dir, contents[0]);
        let i = choose|i: int| 0 <= i < files.len() && files[i] == path;
        assert(more[i] == path);
        lemma_found_files_stay(
            root,
            more,
            to_visit.drop_last() + open_dirs_in(root, dir, contents[0]),
            contents.skip(1),
            path,
        );
    }
}

proof fn lemma_finished_walks_visit_all(
    root: Seq<Seq<char>>,
    files: Seq<PathView>,
    to_visit: Seq<PathView>,
    contents: Seq<Seq<DirectoryEntry>>,
    dir: PathView,
)
    requires
        walked(root, files, to_visit, contents).1.len() == 0,
        to_visit.contains(dir),
    ensures
        visited(root, to_visit, contents).contains(dir),
    decreases contents.len(),
{
    let i = choose|i: int| 0 <= i < to_visit.len() && to_visit[i] == dir;
    assert(contents.len() > 0);
    let next = to_visit.last();
    let left = to_visit.drop_last() + open_dirs_in(root, next, contents[0]);
    let rest = visited(root, left, contents.skip(1));
    assert((seq![next] + rest)[0] == next);
    if i < to_visit.len() - 1 {
        assert(left[i] == dir);
        lemma_finished_walks_visit_all(
            root,
            files + files_in(next, contents[0]),
            left,
            contents.skip(1),
            dir,
        );
        let k = choose|k: int| 0 <= k < rest.len() && rest[k] == dir;
        assert((seq![next] + rest)[k + 1] == dir);
    }
}

proof fn lemma_finished_walks_miss_nothing(
    root: Seq<Seq<char>>,
    files: Seq<PathView>,
    to_visit: Seq<PathView>,
    contents: Seq<Seq<DirectoryEntry>>,
    k: int,
    j: int,
)
    requires
        walked(root, files, to_visit, contents).1.len() == 0,
        0 <= k < visited(root, to_visit, contents).len(),
        0 <= j < contents[k].len(),
    ensures
        ({
            let dirs = visited(root, to_visit, contents);
            let path = child(dirs[k], contents[k][j]);
            &&& !contents[k][j].is_dir ==> walked(root, files, to_visit, contents).0.contains(path)
            &&& contents[k][j].is_dir && !scope::ignored(root, path) ==> dirs.contains(path)
        }),
    decreases contents.len(),
{
    let next = to_visit.last();
    let more = files + files_in(next, contents[0]);
    let opened = open_dirs_in(root, next, contents[0]);
    let left = to_visit.drop_last() + opened;
    let rest = visited(root, left, contents.skip(1));
    let dirs = visited(root, to_visit, contents);
    let path = child(dirs[k], contents[k][j]);
    assert(dirs == seq![next] + rest);
    if k == 0 {
        lemma_every_entry_is_taken_up(root, next, contents[0], j);
        if files_in(next, contents[0]).contains(path) {
            let i = choose|i: int|
                0 <= i < files_in(next, contents[0]).len() && files_in(next, contents[0])[i]
                    == path;
            assert(more[files.len() + i] == path);
            lemma_found_files_stay(root, more, left, contents.skip(1), path);
        }
        if opened.contains(path) {
            let i = choose|i: int| 0 <= i < opened.len() && opened[i] == path;
            assert(left[to_visit.len() - 1 + i] == path);
            lemma_finished_walks_visit_all(root, more, left, contents.skip(1), path);
        }
    } else {
        lemma_visited_len(root, left, contents.skip(1));
        assert(dirs[k] == rest[k - 1]);
        assert(contents.skip(1)[k - 1] == contents[k]);
        lemma_finished_walks_miss_nothing(root, more, left, contents.skip(1), k - 1, j);
    }
    if rest.contains(path) {
        let i = choose|i: int| 0 <= i < rest.len() && rest[i] == path;
        assert(dirs[i + 1] == path);
    }
}

/// A walk with nothing left to visit has missed nothing: it visited the directory
/// that it started from, found every file that a visited directory holds, and
/// visited every directory in one that is not ignored.
pub proof fn law_finished_walks_miss_nothing(
    root: Seq<Seq<char>>,
    target: PathView,
    contents: Seq<Seq<DirectoryEntry>>,
)
    requires
        walked(root, Seq::empty(), seq![target], contents).1.len() == 0,
    ensures
        visited(root, seq![target], contents).contains(target),
        forall|k: int, j: int|
            0 <= k < visited(root, seq![target], contents).len() && 0 <= j < contents[k].len()
                ==> ({
                let dirs = visited(root, seq![target], contents);
                let entry = #[trigger] contents[k][j];
                let path = child(dirs[k], entry);
                &&& !entry.is_dir ==> walked(
                    root,
                    Seq::empty(),
                    seq![target],
                    contents,
                ).0.contains(path)
                &&& entry.is_dir && !scope::ignored(root, path) ==> dirs.contains(path)
            }),
{
    assert(seq![target][0] == target);
    lemma_finished_walks_visit_all(root, Seq::empty(), seq![target], contents, target);
    assert forall|k: int, j: int|
        0 <= k < visited(root, seq![target], contents).len() && 0 <= j < contents[k].len() implies ({
        let dirs = visited(root, seq![target], contents);
        let entry = #[trigger] contents[k][j];
        let path = child(dirs[k], entry);
        &&& !entry.is_dir ==> walked(root, Seq::empty(), seq![target], contents).0.contains(path)
        &&& entry.is_dir && !scope::ignored(root, path) ==> dirs.contains(path)
    }) by {
        lemma_finished_walks_miss_nothing(root, Seq::empty(), seq![target], contents, k, j);
    }
}

/// In a directory of the audit that holds no project of its own, nothing is left
/// out but the directories with an excluded name.
pub proof fn law_without_projects_only_names_are_left_out(
    root: Seq<Seq<char>>,
    dir: PathView,
    entries: Seq<DirectoryEntry>,
    i: int,
)
    requires
        scope::under(root, dir.parts),
        dir.is_dir,
        !scope::ignored(root, dir),
        !holds_project(entries),
        0 <= i < entries.len(),
        entries[i].is_dir,
    ensures
        scope::ignored(root, child(dir, entries[i])) <==> scope::excluded_names().contains(
            entries[i].name@,
        ),
{
    let path = child(dir, entries[i]);
    let last = dir.parts.len() as int;
    assert(path.parts.take(root.len() as int) =~= dir.parts.take(root.len() as int));
    assert(path.parts[last] == entries[i].name@);
    assert(!path.manifests[last]);
    assert forall|j: int| root.len() <= j < last implies !scope::leaves_audit(path, j) by {
        assert(!scope::leaves_audit(dir, j));
    }
    if scope::excluded_names().contains(entries[i].name@) {
        assert(scope::leaves_audit(path, last));
    }
}

/// Whether `a` comes before `b` in the order of characters, or is the same.
pub open spec fn text_precedes(a: Seq<char>, b: Seq<char>) -> bool
    decreases a.len(),
{
    a.len() == 0 || (b.len() > 0 && (a[0] < b[0] || (a[0] == b[0] && text_precedes(
        a.skip(1),
        b.skip(1),
    ))))
}

/// Whether the path `a` comes before the path `b`, name by name, or is the same.
pub open spec fn path_precedes(a: Seq<Seq<char>>, b: Seq<Seq<char>>) -> bool
    decreases a.len(),
{
    a.len() == 0 || (b.len() > 0 && if a[0] == b[0] {
        path_precedes(a.skip(1), b.skip(1))
    } else {
        text_precedes(a[0], b[0])
    })
}

/// Whether the paths stand in their order.
pub open spec fn in_order(paths: Seq<PathView>) -> bool {
    forall|i: int, j: int|
        0 <= i < j < paths.len() ==> path_precedes(
            (#[trigger] paths[i]).parts,
            (#[trigger] paths[j]).parts,
        )
}

proof fn lemma_text_order(a: Seq<char>, b: Seq<char>, c: Seq<char>)
    ensures
        text_precedes(a, b) || text_precedes(b, a),
        text_precedes(a, b) && text_precedes(b, a) ==> a == b,
        text_precedes(a, b) && text_precedes(b, c) ==> text_precedes(a, c),
    decreases a.len() + b.len() + c.len(),
{
    if a.len() > 0 && b.len() > 0 {
        let c1 = if c.len() > 0 {
            c.skip(1)
        } else {
            c
        };
        lemma_text_order(a.skip(1), b.skip(1), c1);
        if a[0] == b[0] && a.skip(1) == b.skip(1) {
            assert(a =~= seq![a[0]] + a.skip(1));
            assert(b =~= seq![b[0]] + b.skip(1));
        }
    } else if a.len() == 0 && b.len() == 0 {
        assert(a =~= b);
    }
}

proof fn lemma_path_order(a: Seq<Seq<char>>, b: Seq<Seq<char>>, c: Seq<Seq<char>>)
    ensures
        path_precedes(a, b) || path_precedes(b, a),
        path_precedes(a, b) && path_precedes(b, c) ==> path_precedes(a, c),
    decreases a.len() + b.len() + c.len(),
{
    if a.len() > 0 && b.len() > 0 {
        if c.len() > 0 {
            lemma_path_order(a.skip(1), b.skip(1), c.skip(1));
            lemma_text_order(a[0], b[0], c[0]);
            lemma_text_order(b[0], c[0], a[0]);
        } else {
            lemma_path_order(a.skip(1), b.skip(1), c);
            lemma_text_order(a[0], b[0], a[0]);
        }
    }
}

fn text_in_order(a: &str, b: &str) -> (r: bool)
    ensures
        r == text_precedes(a@, b@),
{
    let left = text::chars_of(a);
    let right = text::chars_of(b);
    let mut i: usize = 0;
    assert(a@.skip(0) =~= a@ && b@.skip(0) =~= b@);
    while i < left.len()
        invariant
            i <= left.len(),
            i <= right.len(),
            left@ == a@,
            right@ == b@,
            text_precedes(a@, b@) == text_precedes(a@.skip(i as int), b@.skip(i as int)),
        decreases left.len() - i,
    {
        if i >= right.len() {
            return false;
        }
        if left[i] != right[i] {
            return left[i] < right[i];
        }
        assert(a@.skip(i as int).skip(1) =~= a@.skip(i + 1));
        assert(b@.skip(i as int).skip(1) =~= b@.skip(i + 1));
        i += 1;
    }
    true
}

fn path_in_order(a: &Vec<String>, b: &Vec<String>) -> (r: bool)
    ensures
        r == path_precedes(text::texts(a@), text::texts(b@)),
{
    let ghost left = text::texts(a@);
    let ghost right = text::texts(b@);
    let mut i: usize = 0;
    assert(left.skip(0) =~= left && right.skip(0) =~= right);
    while i < a.len()
        invariant
            i <= a.len(),
            i <= b.len(),
            left == text::texts(a@),
            right == text::texts(b@),
            path_precedes(left, right) == path_precedes(
                left.skip(i as int),
                right.skip(i as int),
            ),
        decreases a.len() - i,
    {
        if i >= b.len() {
            return false;
        }
        assert(left.skip(i as int)[0] == a@[i as int]@);
        assert(right.skip(i as int)[0] == b@[i as int]@);
        if !text::same(&a[i], &b[i]) {
            return text_in_order(&a[i], &b[i]);
        }
        assert(left.skip(i as int).skip(1) =~= left.skip(i + 1));
        assert(right.skip(i as int).skip(1) =~= right.skip(i + 1));
        i += 1;
    }
    true
}

/// The paths in their order.
pub fn sort_paths(paths: Vec<LocatedPath>) -> (r: Vec<LocatedPath>)
    ensures
        in_order(path_views(r@)),
        path_views(r@).to_multiset() == path_views(paths@).to_multiset(),
{
    let ghost all = paths@;
    let ghost views = path_views(all);
    let mut sorted: Vec<LocatedPath> = Vec::new();
    assert(path_views(sorted@) =~= views.take(0));
    for path in it: paths
        invariant
            it.seq() == all,
            views == path_views(all),
            in_order(path_views(sorted@)),
            path_views(sorted@).to_multiset() == views.take(it.index() as int).to_multiset(),
    {
        let ghost k = it.index() as int;
        let ghost before = path_views(sorted@);
        let mut at: usize = 0;
        while at < sorted.len() && path_in_order(&sorted[at].parts, &path.parts)
            invariant
                at <= sorted.len(),
                before == path_views(sorted@),
                forall|i: int|
                    0 <= i < at ==> path_precedes((#[trigger] before[i]).parts, path@.parts),
            decreases sorted.len() - at,
        {
            assert(before[at as int] == sorted@[at as int]@);
            at += 1;
        }
        assert forall|j: int| at <= j < before.len() implies path_precedes(
            path@.parts,
            (#[trigger] before[j]).parts,
        ) by {
            assert(before[at as int] == sorted@[at as int]@);
            lemma_path_order(path@.parts, before[at as int].parts, before[j].parts);
        }
        let ghost entry = path@;
        sorted.insert(at, path);
        let ghost after = path_views(sorted@);
        proof {
            assert(after =~= before.insert(at as int, entry));
            assert forall|i: int, j: int| 0 <= i < j < after.len() implies path_precedes(
                (#[trigger] after[i]).parts,
                (#[trigger] after[j]).parts,
            ) by {
                let i0 = if i < at {
                    i
                } else {
                    i - 1
                };
                let j0 = if j < at {
                    j
                } else {
                    j - 1
                };
                if i != at {
                    assert(after[i] == before[i0]);
                }
                if j != at {
                    assert(after[j] == before[j0]);
                }
            }
            assert(after.remove(at as int) =~= before);
            assert(after[at as int] == entry);
            assert(after.contains(entry));
            assert(before.to_multiset() == after.to_multiset().remove(entry)) by {
                vstd::seq_lib::to_multiset_remove(after, at as int);
            }
            assert(after.to_multiset() =~= before.to_multiset().insert(entry)) by {
                broadcast use vstd::multiset::group_multiset_properties;

                after.to_multiset_ensures();
                assert(after.to_multiset().count(entry) > 0);
            }
            assert(views[k] == entry);
            assert(views.take(k + 1) =~= views.take(k).push(entry));
            vstd::seq_lib::to_multiset_build(views.take(k), entry);
        }
    }
    assert(views.take(views.len() as int) =~= views);
    sorted
}

/// An entry lies in its directory under its own name, is a directory where the entry
/// says so, and keeps the path as it is written.
pub proof fn law_entries_lie_in_their_directory(dir: PathView, entry: DirectoryEntry)
    ensures
        child(dir, entry).parts == dir.parts + seq![entry.name@],
        child(dir, entry).is_dir == entry.is_dir,
        child(dir, entry).written == entry.written@,
        child(dir, entry).manifests.len() == dir.parts.len() + 1,
        child(dir, entry).manifests.last() == entry.has_manifest,
        dir.manifests.len() == dir.parts.len() ==> child(dir, entry).manifests.drop_last()
            == dir.manifests,
{
    assert(dir.parts.push(entry.name@) =~= dir.parts + seq![entry.name@]);
    if dir.manifests.len() == dir.parts.len() {
        assert(child(dir, entry).manifests.drop_last() =~= dir.manifests);
    }
}

/// What is taken up of two rows of entries is what is taken up of the first, then of
/// the second. Of a single entry, a file is found, a directory that is not ignored is
/// to be visited, and nothing else is taken up.
pub proof fn law_entries_are_taken_up_in_order(
    root: Seq<Seq<char>>,
    dir: PathView,
    left: Seq<DirectoryEntry>,
    right: Seq<DirectoryEntry>,
    entry: DirectoryEntry,
)
    ensures
        files_in(dir, left + right) == files_in(dir, left) + files_in(dir, right),
        open_dirs_in(root, dir, left + right) == open_dirs_in(root, dir, left) + open_dirs_in(
            root,
            dir,
            right,
        ),
        !entry.is_dir ==> files_in(dir, seq![entry]) == seq![child(dir, entry)] && open_dirs_in(
            root,
            dir,
            seq![entry],
        ) == Seq::<PathView>::empty(),
        entry.is_dir && !scope::ignored(root, child(dir, entry)) ==> open_dirs_in(
            root,
            dir,
            seq![entry],
        ) == seq![child(dir, entry)] && files_in(dir, seq![entry]) == Seq::<PathView>::empty(),
        entry.is_dir && scope::ignored(root, child(dir, entry)) ==> open_dirs_in(
            root,
            dir,
            seq![entry],
        ) == Seq::<PathView>::empty() && files_in(dir, seq![entry]) == Seq::<PathView>::empty(),
        holds_project(seq![entry]) <==> entry.is_dir && entry.has_manifest,
    decreases right.len(),
{
    if right.len() > 0 {
        law_entries_are_taken_up_in_order(root, dir, left, right.drop_last(), entry);
        assert((left + right).drop_last() =~= left + right.drop_last());
        assert((left + right).last() == right.last());
    } else {
        assert(left + right =~= left);
    }
    assert(files_in(dir, left + right) =~= files_in(dir, left) + files_in(dir, right));
    assert(open_dirs_in(root, dir, left + right) =~= open_dirs_in(root, dir, left) + open_dirs_in(
        root,
        dir,
        right,
    ));
    let one = seq![entry];
    assert(one.drop_last() =~= Seq::<DirectoryEntry>::empty());
    assert(one[0] == entry && one.last() == entry);
    assert(files_in(dir, one.drop_last()) =~= Seq::<PathView>::empty());
    assert(open_dirs_in(root, dir, one.drop_last()) =~= Seq::<PathView>::empty());
    assert(Seq::<PathView>::empty().push(child(dir, entry)) =~= seq![child(dir, entry)]);
}

/// Two names are ordered by the first character in which they differ, and a name comes
/// before every longer one that it begins.
pub proof fn law_names_are_ordered_by_their_characters(
    common: Seq<char>,
    a: char,
    left: Seq<char>,
    b: char,
    right: Seq<char>,
)
    requires
        a != b,
    ensures
        text_precedes(common + seq![a] + left, common + seq![b] + right) <==> a < b,
        text_precedes(common, common + right),
        !text_precedes(common + seq![a] + left, common),
    decreases common.len(),
{
    let x = common + seq![a] + left;
    let y = common + seq![b] + right;
    if common.len() > 0 {
        let rest = common.skip(1);
        law_names_are_ordered_by_their_characters(rest, a, left, b, right);
        assert(x.skip(1) =~= rest + seq![a] + left);
        assert(y.skip(1) =~= rest + seq![b] + right);
        assert((common + right).skip(1) =~= rest + right);
        assert(x[0] == common[0] && y[0] == common[0]);
    } else {
        assert(x[0] == a && y[0] == b);
    }
}

/// Two paths are ordered by the first name in which they differ, and a path comes
/// before everything below it.
pub proof fn law_paths_are_ordered_by_their_names(
    common: Seq<Seq<char>>,
    a: Seq<char>,
    left: Seq<Seq<char>>,
    b: Seq<char>,
    right: Seq<Seq<char>>,
)
    requires
        a != b,
    ensures
        path_precedes(common + seq![a] + left, common + seq![b] + right) <==> text_precedes(a, b),
        path_precedes(common, common + right),
        !path_precedes(common + seq![a] + left, common),
    decreases common.len(),
{
    let x = common + seq![a] + left;
    let y = common + seq![b] + right;
    if common.len() > 0 {
        let rest = common.skip(1);
        law_paths_are_ordered_by_their_names(rest, a, left, b, right);
        assert(x.skip(1) =~= rest + seq![a] + left);
        assert(y.skip(1) =~= rest + seq![b] + right);
        assert((common + right).skip(1) =~= rest + right);
        assert(x[0] == common[0] && y[0] == common[0]);
    } else {
        assert(x[0] == a && y[0] == b);
    }
}

/// Paths are in order exactly where each of them comes before every later one.
pub proof fn law_order_holds_of_every_two_paths(paths: Seq<PathView>, i: int, j: int)
    ensures
        in_order(paths) && 0 <= i < j < paths.len() ==> path_precedes(
            paths[i].parts,
            paths[j].parts,
        ),
        0 <= i < j < paths.len() && !path_precedes(paths[i].parts, paths[j].parts) ==> !in_order(
            paths,
        ),
        (forall|a: int, b: int|
            0 <= a < b < paths.len() ==> path_precedes(
                (#[trigger] paths[a]).parts,
                (#[trigger] paths[b]).parts,
            )) ==> in_order(paths),
{
}

/// A row of entries holds a project where any of them is a directory with a manifest.
pub proof fn law_projects_are_noticed_anywhere(entries: Seq<DirectoryEntry>, i: int)
    ensures
        0 <= i < entries.len() && entries[i].is_dir && entries[i].has_manifest ==> holds_project(
            entries,
        ),
        (forall|k: int|
            0 <= k < entries.len() ==> !(#[trigger] entries[k]).is_dir || !entries[k].has_manifest)
            ==> !holds_project(entries),
{
}

} // verus!
