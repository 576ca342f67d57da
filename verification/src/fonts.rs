//! The fonts that are installed beside the texts: the folders and files to be
//! written for a tree of fonts.
use vstd::prelude::*;

use crate::paths::{HostPath, PathView};

verus! {

/// A file in a tree of fonts.
#[derive(Debug)]
pub struct FontFile {
    pub name: String,
    pub content: Vec<u8>,
}

/// A folder in a tree of fonts.
#[derive(Debug)]
pub struct FontDir {
    pub name: String,
    pub files: Vec<FontFile>,
    pub dirs: Vec<FontDir>,
}

/// Something to be written.
#[derive(Debug)]
pub enum FontStep {
    /// Make a folder.
    Folder(HostPath),
    /// Write a file.
    File { path: HostPath, content: Vec<u8> },
}

/// A [`FontStep`] by its characters and bytes.
#[verifier::ext_equal]
pub enum FontStepView {
    Folder(PathView),
    File { path: PathView, content: Seq<u8> },
}

impl View for FontStep {
    type V = FontStepView;

    open spec fn view(&self) -> FontStepView {
        match *self {
            FontStep::Folder(path) => FontStepView::Folder(path@),
            FontStep::File { path, content } => FontStepView::File {
                path: path@,
                content: content@,
            },
        }
    }
}

impl FontStepView {
    /// What is made or written.
    pub open spec fn path(self) -> PathView {
        match self {
            FontStepView::Folder(path) => path,
            FontStepView::File { path, content } => path,
        }
    }
}

/// The steps by their characters and bytes.
pub open spec fn steps(v: Seq<FontStep>) -> Seq<FontStepView> {
    Seq::new(v.len(), |i: int| v[i]@)
}

/// The folder for fonts below the output folder.
pub fn font_folder(output_base: &str) -> (r: HostPath)
    ensures
        r@ == PathView::of(output_base@).join("Font"@),
{
    HostPath::new(output_base).join("Font")
}

/// The files of a folder, written below a path.
pub open spec fn files_below(files: Seq<FontFile>, path: PathView) -> Seq<FontStepView> {
    Seq::new(
        files.len(),
        |i: int|
            FontStepView::File { path: path.join(files[i].name@), content: files[i].content@ },
    )
}

/// The steps that write a folder to a path: the folder is made, then its files
/// are written, then its folders are, one after the other.
pub open spec fn dir_steps(dir: FontDir, path: PathView) -> Seq<FontStepView>
    decreases dir,
{
    seq![FontStepView::Folder(path)] + files_below(dir.files@, path) + dirs_steps(dir.dirs@, path)
}

/// The steps that write folders below a path, one after the other.
pub open spec fn dirs_steps(dirs: Seq<FontDir>, path: PathView) -> Seq<FontStepView>
    decreases dirs,
{
    if dirs.len() == 0 {
        Seq::empty()
    } else {
        dirs_steps(dirs.drop_last(), path) + dir_steps(dirs.last(), path.join(dirs.last().name@))
    }
}

/// The steps that write a folder to a path.
pub fn write_dir(dir: FontDir, path: &HostPath) -> (r: Vec<FontStep>)
    ensures
        steps(r@) == dir_steps(dir, path@),
    decreases dir,
{
    let mut out: Vec<FontStep> = Vec::new();
    out.push(FontStep::Folder(path.copy()));
    let mut files = dir.files;
    let ghost all = dir.files@;
    assert(steps(out@) == seq![FontStepView::Folder(path@)] + files_below(all.take(0), path@));
    let ghost mut done: int = 0;
    while files.len() > 0
        invariant
            0 <= done <= all.len(),
            files@ == all.skip(done),
            steps(out@) == seq![FontStepView::Folder(path@)] + files_below(all.take(done), path@),
        decreases files@.len(),
    {
        let ghost had = steps(out@);
        let file = files.remove(0);
        let step = FontStep::File { path: path.join(file.name.as_str()), content: file.content };
        out.push(step);
        proof {
            assert(steps(out@) == had.push(step@));
            assert(files_below(all.take(done + 1), path@) == files_below(
                all.take(done),
                path@,
            ).push(step@));
            done = done + 1;
        }
    }
    assert(all.take(done) == all);
    let mut dirs = dir.dirs;
    let ghost below = dir.dirs@;
    let ghost start = steps(out@);
    let ghost mut gone: int = 0;
    assert(below.take(0) == Seq::<FontDir>::empty());
    while dirs.len() > 0
        invariant
            below == dir.dirs@,
            0 <= gone <= below.len(),
            dirs@ == below.skip(gone),
            steps(out@) == start + dirs_steps(below.take(gone), path@),
        decreases dirs@.len(),
    {
        let ghost had = steps(out@);
        let sub = dirs.remove(0);
        assert(sub == below[gone]);
        let place = path.join(sub.name.as_str());
        let mut more = write_dir(sub, &place);
        let ghost added = steps(more@);
        out.append(&mut more);
        proof {
            assert(steps(out@) == had + added);
            assert(below.take(gone + 1).drop_last() == below.take(gone));
            gone = gone + 1;
        }
    }
    assert(below.take(gone) == below);
    out
}

/// A path is at or below another.
pub open spec fn at_or_below(path: PathView, top: PathView) -> bool {
    path.base == top.base && top.names.is_prefix_of(path.names)
}

/// Nothing is made or written outside the path that the fonts are written to.
pub proof fn law_fonts_stay_in_their_folder(dir: FontDir, path: PathView)
    ensures
        forall|i: int|
            0 <= i < dir_steps(dir, path).len() ==> at_or_below(
                (#[trigger] dir_steps(dir, path)[i]).path(),
                path,
            ),
    decreases dir,
{
    let files = files_below(dir.files@, path);
    let dirs = dirs_steps(dir.dirs@, path);
    let all = dir_steps(dir, path);
    lemma_dirs_stay(dir.dirs@, path);
    assert forall|i: int| 0 <= i < all.len() implies at_or_below(
        (#[trigger] all[i]).path(),
        path,
    ) by {
        if i == 0 {
        } else if i <= files.len() {
            assert(all[i] == files[i - 1]);
        } else {
            assert(all[i] == dirs[i - 1 - files.len()]);
        }
    }
}

proof fn lemma_dirs_stay(dirs: Seq<FontDir>, path: PathView)
    ensures
        forall|i: int|
            0 <= i < dirs_steps(dirs, path).len() ==> at_or_below(
                (#[trigger] dirs_steps(dirs, path)[i]).path(),
                path,
            ),
    decreases dirs,
{
    if dirs.len() > 0 {
        let front = dirs_steps(dirs.drop_last(), path);
        let place = path.join(dirs.last().name@);
        let back = dir_steps(dirs.last(), place);
        let all = dirs_steps(dirs, path);
        lemma_dirs_stay(dirs.drop_last(), path);
        law_fonts_stay_in_their_folder(dirs.last(), place);
        assert forall|i: int| 0 <= i < all.len() implies at_or_below(
            (#[trigger] all[i]).path(),
            path,
        ) by {
            if i < front.len() {
                assert(all[i] == front[i]);
            } else {
                let step = back[i - front.len()];
                assert(all[i] == step);
                assert(at_or_below(step.path(), place));
                assert(path.names.is_prefix_of(place.names)) by {
                    assert(place.names.subrange(0, path.names.len() as int) == path.names);
                }
                assert(step.path().names.subrange(0, path.names.len() as int)
                    == place.names.subrange(0, path.names.len() as int));
            }
        }
    }
}

/// A file is written only into a folder that was made before.
pub open spec fn folders_come_first(v: Seq<FontStepView>) -> bool {
    forall|i: int|
        0 <= i < v.len() && (#[trigger] v[i]) is File ==> exists|j: int|
            0 <= j < i && (#[trigger] v[j]) == FontStepView::Folder(parent(v[i].path()))
}

/// The path one name up.
pub open spec fn parent(path: PathView) -> PathView {
    PathView { base: path.base, names: path.names.drop_last() }
}

/// Every folder is made before a file is written into it.
pub proof fn law_folders_are_made_before_their_files(dir: FontDir, path: PathView)
    ensures
        folders_come_first(dir_steps(dir, path)),
    decreases dir,
{
    let files = files_below(dir.files@, path);
    let dirs = dirs_steps(dir.dirs@, path);
    let all = dir_steps(dir, path);
    lemma_dirs_come_first(dir.dirs@, path);
    assert(all[0] == FontStepView::Folder(path));
    assert forall|i: int| 0 <= i < all.len() && (#[trigger] all[i]) is File implies exists|j: int|
        0 <= j < i && (#[trigger] all[j]) == FontStepView::Folder(parent(all[i].path())) by {
        if 0 < i <= files.len() {
            assert(all[i] == files[i - 1]);
            assert(parent(all[i].path()) == path);
            assert(all[0] == FontStepView::Folder(parent(all[i].path())));
        } else if i > files.len() {
            let at = i - 1 - files.len();
            assert(all[i] == dirs[at]);
            let j = choose|j: int|
                0 <= j < at && (#[trigger] dirs[j]) == FontStepView::Folder(
                    parent(dirs[at].path()),
                );
            assert(all[j + 1 + files.len()] == dirs[j]);
        }
    }
}

proof fn lemma_dirs_come_first(dirs: Seq<FontDir>, path: PathView)
    ensures
        folders_come_first(dirs_steps(dirs, path)),
    decreases dirs,
{
    if dirs.len() > 0 {
        let front = dirs_steps(dirs.drop_last(), path);
        let back = dir_steps(dirs.last(), path.join(dirs.last().name@));
        let all = dirs_steps(dirs, path);
        lemma_dirs_come_first(dirs.drop_last(), path);
        law_folders_are_made_before_their_files(dirs.last(), path.join(dirs.last().name@));
        assert forall|i: int|
            0 <= i < all.len() && (#[trigger] all[i]) is File implies exists|j: int|
            0 <= j < i && (#[trigger] all[j]) == FontStepView::Folder(parent(all[i].path())) by {
            if i < front.len() {
                assert(all[i] == front[i]);
                let j = choose|j: int|
                    0 <= j < i && (#[trigger] front[j]) == FontStepView::Folder(
                        parent(front[i].path()),
                    );
                assert(all[j] == front[j]);
            } else {
                let at = i - front.len();
                assert(all[i] == back[at]);
                let j = choose|j: int|
                    0 <= j < at && (#[trigger] back[j]) == FontStepView::Folder(
                        parent(back[at].path()),
                    );
                assert(all[j + front.len()] == back[j]);
            }
        }
    }
}

/// The folder that stands at a place in a tree: the place tells, from the top
/// down, which of the folders to go into.
pub open spec fn dir_at(dir: FontDir, place: Seq<int>) -> Option<FontDir>
    decreases place.len(),
{
    if place.len() == 0 {
        Some(dir)
    } else if 0 <= place[0] < dir.dirs@.len() {
        dir_at(dir.dirs@[place[0]], place.drop_first())
    } else {
        None
    }
}

/// The names of the folders on the way to a place.
pub open spec fn names_along(dir: FontDir, place: Seq<int>) -> Seq<Seq<char>>
    decreases place.len(),
{
    if place.len() == 0 {
        Seq::empty()
    } else {
        seq![dir.dirs@[place[0]].name@] + names_along(dir.dirs@[place[0]], place.drop_first())
    }
}

/// The path that the folder at a place belongs to.
pub open spec fn path_along(dir: FontDir, place: Seq<int>, path: PathView) -> PathView {
    PathView { base: path.base, names: path.names + names_along(dir, place) }
}

/// The step that writes a file of the folder at a place.
pub open spec fn file_step(dir: FontDir, place: Seq<int>, k: int, path: PathView) -> FontStepView {
    let file = dir_at(dir, place)->Some_0.files@[k];
    FontStepView::File {
        path: PathView {
            base: path.base,
            names: path.names + names_along(dir, place) + seq![file.name@],
        },
        content: file.content@,
    }
}

/// There is such a file.
pub open spec fn has_file(dir: FontDir, place: Seq<int>, k: int) -> bool {
    dir_at(dir, place) matches Some(folder) && 0 <= k < folder.files@.len()
}

/// Every file of the tree, however deep it stands, is written: to the path of the
/// folders above it and its own name, with all of its bytes. Every folder of the
/// tree is made.
pub proof fn law_every_font_is_written_whole(dir: FontDir, path: PathView, place: Seq<int>, k: int)
    requires
        dir_at(dir, place) is Some,
    ensures
        dir_steps(dir, path).contains(FontStepView::Folder(path_along(dir, place, path))),
        has_file(dir, place, k) ==> dir_steps(dir, path).contains(file_step(dir, place, k, path)),
    decreases place.len(),
{
    let files = files_below(dir.files@, path);
    let below = dirs_steps(dir.dirs@, path);
    let all = dir_steps(dir, path);
    if place.len() == 0 {
        assert(path_along(dir, place, path) == path);
        assert(all[0] == FontStepView::Folder(path));
        if has_file(dir, place, k) {
            assert(all[k + 1] == files[k]);
            assert(path.names + names_along(dir, place) + seq![dir.files@[k].name@]
                == path.names.push(dir.files@[k].name@));
        }
    } else {
        let sub = dir.dirs@[place[0]];
        let rest = place.drop_first();
        let lower = path.join(sub.name@);
        law_every_font_is_written_whole(sub, lower, rest, k);
        lemma_dirs_hold_each(dir.dirs@, path, place[0]);
        assert(path_along(sub, rest, lower) == path_along(dir, place, path));
        let folder = FontStepView::Folder(path_along(dir, place, path));
        assert(below.contains(folder));
        lemma_below_is_in_all(dir, path, folder);
        if has_file(dir, place, k) {
            let step = file_step(dir, place, k, path);
            assert(file_step(sub, rest, k, lower) == step) by {
                let name = dir_at(dir, place)->Some_0.files@[k].name@;
                assert(lower.names + names_along(sub, rest) + seq![name] == path.names
                    + names_along(dir, place) + seq![name]);
            }
            assert(below.contains(step));
            lemma_below_is_in_all(dir, path, step);
        }
    }
}

proof fn lemma_below_is_in_all(dir: FontDir, path: PathView, step: FontStepView)
    requires
        dirs_steps(dir.dirs@, path).contains(step),
    ensures
        dir_steps(dir, path).contains(step),
{
    let below = dirs_steps(dir.dirs@, path);
    let i = choose|i: int| 0 <= i < below.len() && below[i] == step;
    assert(dir_steps(dir, path)[i + 1 + dir.files@.len()] == step);
}

proof fn lemma_dirs_hold_each(dirs: Seq<FontDir>, path: PathView, n: int)
    requires
        0 <= n < dirs.len(),
    ensures
        forall|step: FontStepView|
            dir_steps(dirs[n], path.join(dirs[n].name@)).contains(step) ==> #[trigger] dirs_steps(
                dirs,
                path,
            ).contains(step),
    decreases dirs.len(),
{
    let front = dirs_steps(dirs.drop_last(), path);
    let back = dir_steps(dirs.last(), path.join(dirs.last().name@));
    let all = dirs_steps(dirs, path);
    if n < dirs.len() - 1 {
        lemma_dirs_hold_each(dirs.drop_last(), path, n);
    }
    assert forall|step: FontStepView|
        dir_steps(dirs[n], path.join(dirs[n].name@)).contains(step) implies #[trigger] all.contains(
        step,
    ) by {
        if n < dirs.len() - 1 {
            assert(front.contains(step));
            let i = choose|i: int| 0 <= i < front.len() && front[i] == step;
            assert(all[i] == step);
        } else {
            let i = choose|i: int| 0 <= i < back.len() && back[i] == step;
            assert(all[front.len() + i] == step);
        }
    }
}

/// Nothing else is written or made: a step that writes a file is that of a file of
/// the tree, and one that makes a folder is that of a folder of the tree.
pub proof fn law_only_fonts_are_written(dir: FontDir, path: PathView, i: int)
    requires
        0 <= i < dir_steps(dir, path).len(),
    ensures
        dir_steps(dir, path)[i] is File ==> exists|place: Seq<int>, k: int| #[trigger]
            has_file(dir, place, k) && dir_steps(dir, path)[i] == file_step(dir, place, k, path),
        dir_steps(dir, path)[i] is Folder ==> exists|place: Seq<int>|
            (#[trigger] dir_at(dir, place)) is Some && dir_steps(dir, path)[i]
                == FontStepView::Folder(path_along(dir, place, path)),
    decreases dir,
{
    let files = files_below(dir.files@, path);
    let below = dirs_steps(dir.dirs@, path);
    let step = dir_steps(dir, path)[i];
    let none = Seq::<int>::empty();
    if i == 0 {
        assert(dir_at(dir, none) is Some);
        assert(path_along(dir, none, path) == path);
    } else if i <= files.len() {
        assert(step == files[i - 1]);
        assert(has_file(dir, none, i - 1));
        assert(path.names + names_along(dir, none) + seq![dir.files@[i - 1].name@]
            == path.names.push(dir.files@[i - 1].name@));
    } else {
        let at = i - 1 - files.len();
        assert(step == below[at]);
        let n = lemma_step_of_some_dir(dir.dirs@, path, at);
        let sub = dir.dirs@[n];
        let lower = path.join(sub.name@);
        if step is File {
            let (rest, k) = choose|rest: Seq<int>, k: int| #[trigger]
                has_file(sub, rest, k) && step == file_step(sub, rest, k, lower);
            let place = seq![n] + rest;
            assert(place.drop_first() == rest);
            assert(has_file(dir, place, k));
            let name = dir_at(dir, place)->Some_0.files@[k].name@;
            assert(lower.names + names_along(sub, rest) + seq![name] == path.names + names_along(
                dir,
                place,
            ) + seq![name]);
        } else {
            let rest = choose|rest: Seq<int>|
                (#[trigger] dir_at(sub, rest)) is Some && step == FontStepView::Folder(
                    path_along(sub, rest, lower),
                );
            let place = seq![n] + rest;
            assert(place.drop_first() == rest);
            assert(dir_at(dir, place) is Some);
            assert(path_along(sub, rest, lower) == path_along(dir, place, path));
        }
    }
}

proof fn lemma_step_of_some_dir(dirs: Seq<FontDir>, path: PathView, at: int) -> (n: int)
    requires
        0 <= at < dirs_steps(dirs, path).len(),
    ensures
        0 <= n < dirs.len(),
        ({
            let step = dirs_steps(dirs, path)[at];
            let sub = dirs[n];
            let lower = path.join(sub.name@);
            &&& step is File ==> exists|rest: Seq<int>, k: int| #[trigger]
                has_file(sub, rest, k) && step == file_step(sub, rest, k, lower)
            &&& step is Folder ==> exists|rest: Seq<int>|
                (#[trigger] dir_at(sub, rest)) is Some && step == FontStepView::Folder(
                    path_along(sub, rest, lower),
                )
        }),
    decreases dirs,
{
    let front = dirs_steps(dirs.drop_last(), path);
    let all = dirs_steps(dirs, path);
    if at < front.len() {
        assert(all[at] == front[at]);
        lemma_step_of_some_dir(dirs.drop_last(), path, at)
    } else {
        let lower = path.join(dirs.last().name@);
        assert(all[at] == dir_steps(dirs.last(), lower)[at - front.len()]);
        law_only_fonts_are_written(dirs.last(), lower, at - front.len());
        dirs.len() - 1
    }
}

/// How many files a tree holds, and how many folders, itself among them.
pub open spec fn tree_size(dir: FontDir) -> (nat, nat)
    decreases dir,
{
    let below = trees_size(dir.dirs@);
    (dir.files@.len() + below.0, 1 + below.1)
}

/// How many files, and how many folders, the trees hold together.
pub open spec fn trees_size(dirs: Seq<FontDir>) -> (nat, nat)
    decreases dirs,
{
    if dirs.len() == 0 {
        (0, 0)
    } else {
        let front = trees_size(dirs.drop_last());
        let last = tree_size(dirs.last());
        (front.0 + last.0, front.1 + last.1)
    }
}

/// How many of the steps write a file.
pub open spec fn files_written(v: Seq<FontStepView>) -> nat
    decreases v.len(),
{
    if v.len() == 0 {
        0
    } else {
        files_written(v.drop_last()) + if v.last() is File {
            1nat
        } else {
            0nat
        }
    }
}

proof fn lemma_files_written_add(a: Seq<FontStepView>, b: Seq<FontStepView>)
    ensures
        files_written(a + b) == files_written(a) + files_written(b),
    decreases b.len(),
{
    if b.len() == 0 {
        assert(a + b == a);
    } else {
        lemma_files_written_add(a, b.drop_last());
        assert((a + b).drop_last() == a + b.drop_last());
    }
}

proof fn lemma_all_written(v: Seq<FontStepView>)
    requires
        forall|i: int| 0 <= i < v.len() ==> (#[trigger] v[i]) is File,
    ensures
        files_written(v) == v.len(),
    decreases v.len(),
{
    if v.len() > 0 {
        assert forall|i: int| 0 <= i < v.drop_last().len() implies (#[trigger] v.drop_last()[i])
            is File by {
            assert(v.drop_last()[i] == v[i]);
        }
        lemma_all_written(v.drop_last());
    }
}

/// Each file is written once and each folder made once: there are just as many
/// steps that write a file as the tree holds files, and as many others as it holds
/// folders.
pub proof fn law_each_font_is_written_once(dir: FontDir, path: PathView)
    ensures
        files_written(dir_steps(dir, path)) == tree_size(dir).0,
        dir_steps(dir, path).len() == tree_size(dir).0 + tree_size(dir).1,
    decreases dir,
{
    let top = seq![FontStepView::Folder(path)];
    let files = files_below(dir.files@, path);
    let below = dirs_steps(dir.dirs@, path);
    lemma_dirs_written_once(dir.dirs@, path);
    lemma_all_written(files);
    lemma_files_written_add(top, files);
    lemma_files_written_add(top + files, below);
    assert(files_written(top.drop_last()) == 0);
    assert(files_written(top) == 0);
}

proof fn lemma_dirs_written_once(dirs: Seq<FontDir>, path: PathView)
    ensures
        files_written(dirs_steps(dirs, path)) == trees_size(dirs).0,
        dirs_steps(dirs, path).len() == trees_size(dirs).0 + trees_size(dirs).1,
    decreases dirs,
{
    if dirs.len() > 0 {
        let lower = path.join(dirs.last().name@);
        lemma_dirs_written_once(dirs.drop_last(), path);
        law_each_font_is_written_once(dirs.last(), lower);
        lemma_files_written_add(
            dirs_steps(dirs.drop_last(), path),
            dir_steps(dirs.last(), lower),
        );
    }
}

/// What is said of a step's characters and bytes is said of all of them.
pub proof fn law_step_is_seen_whole(v: Seq<FontStep>, path: HostPath, content: Vec<u8>)
    ensures
        FontStep::Folder(path)@ == FontStepView::Folder(path@),
        (FontStep::File { path, content })@ == (FontStepView::File {
            path: path@,
            content: content@,
        }),
        steps(v).len() == v.len(),
        forall|i: int| 0 <= i < v.len() ==> (#[trigger] steps(v)[i]) == v[i]@,
{
}

} // verus!
