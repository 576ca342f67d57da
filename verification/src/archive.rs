//! The texts in a downloaded archive: which entries are wanted, where they go,
//! and the walk through all of them.
use std::io::{Cursor, Read};

use vstd::prelude::*;
use zip::ZipArchive;

use crate::error::{AppError, ErrorView};
use crate::numbers::{decimal, size_to_decimal};
use crate::progress::{note, Progress, ProgressUpdate, UpdateView};
use crate::release::check_cancelled;
use crate::text::{before, before_first, chars_of, concat3, ends_with, law_before_is_up_to_the_first, opt_text, starts_with, text_between, texts};

verus! {

// ---------------------------------------------------------------------------
// ZIP archives
// ---------------------------------------------------------------------------

/// `zip::ZipArchive`, whose contents are not looked into.
#[verifier::external_type_specification]
#[verifier::external_body]
#[verifier::reject_recursive_types(R)]
pub struct ExZipArchive<R>(ZipArchive<R>);

/// `std::io::Cursor`, whose contents are not looked into.
#[verifier::external_type_specification]
#[verifier::external_body]
#[verifier::reject_recursive_types(T)]
pub struct ExCursor<T>(Cursor<T>);

/// The bytes that an archive was opened on.
pub uninterp spec fn archive_bytes(archive: ZipArchive<Cursor<Vec<u8>>>) -> Seq<u8>;

/// The text of the error of `ZipArchive::new` for bytes that are no archive;
/// nothing for an archive.
pub uninterp spec fn zip_error(data: Seq<u8>) -> Option<Seq<char>>;

/// `ZipArchive::len` of an archive that was opened on the bytes.
pub uninterp spec fn zip_len(data: Seq<u8>) -> nat;

/// What `ZipArchive::by_index` makes of an entry: its name, or the text of the
/// error for an entry that cannot be opened.
pub uninterp spec fn zip_entry_name(data: Seq<u8>, index: int) -> Result<Seq<char>, Seq<char>>;

/// What `read_to_end` on an entry gives: its content, or nothing for an entry
/// that cannot be opened or read.
pub uninterp spec fn zip_entry_content(data: Seq<u8>, index: int) -> Option<Seq<u8>>;

/// The characters of a text, or of the text of an error.
pub open spec fn text_or_error(r: Result<String, String>) -> Result<Seq<char>, Seq<char>> {
    match r {
        Ok(text) => Ok(text@),
        Err(e) => Err(e@),
    }
}

/// The bytes of an optional row of bytes.
pub open spec fn opt_bytes(o: Option<Vec<u8>>) -> Option<Seq<u8>> {
    match o {
        Some(bytes) => Some(bytes@),
        None => None,
    }
}

/// `ZipArchive::new` on bytes in memory: whether they are an archive is a
/// function of the bytes, and so is the text of the error where they are not.
#[verifier::external_body]
fn open_archive(data: Vec<u8>) -> (r: Result<ZipArchive<Cursor<Vec<u8>>>, String>)
    ensures
        zip_error(data@) == (match r {
            Ok(_) => None,
            Err(e) => Some(e@),
        }),
        r matches Ok(archive) ==> archive_bytes(archive) == data@,
{
    match ZipArchive::new(Cursor::new(data)) {
        Ok(archive) => Ok(archive),
        Err(e) => Err(e.to_string()),
    }
}

/// `ZipArchive::len`: the number of entries, a function of the bytes that the
/// archive was opened on.
#[verifier::external_body]
fn entry_count(archive: &ZipArchive<Cursor<Vec<u8>>>) -> (r: usize)
    ensures
        r == zip_len(archive_bytes(*archive)),
{
    archive.len()
}

/// `ZipArchive::by_index` and the name of what it opens, a function of the
/// bytes that the archive was opened on, which stay what they were.
#[verifier::external_body]
fn entry_name(archive: &mut ZipArchive<Cursor<Vec<u8>>>, index: usize) -> (r: Result<
    String,
    String,
>)
    ensures
        archive_bytes(*final(archive)) == archive_bytes(*old(archive)),
        text_or_error(r) == zip_entry_name(archive_bytes(*old(archive)), index as int),
{
    match archive.by_index(index) {
        Ok(file) => Ok(file.name().to_string()),
        Err(e) => Err(e.to_string()),
    }
}

/// `ZipArchive::by_index` and `read_to_end` on what it opens, a function of
/// the bytes that the archive was opened on, which stay what they were.
#[verifier::external_body]
fn entry_content(archive: &mut ZipArchive<Cursor<Vec<u8>>>, index: usize) -> (r: Option<Vec<u8>>)
    ensures
        archive_bytes(*final(archive)) == archive_bytes(*old(archive)),
        opt_bytes(r) == zip_entry_content(archive_bytes(*old(archive)), index as int),
{
    match archive.by_index(index) {
        Ok(mut file) => {
            let mut content = Vec::new();
            match file.read_to_end(&mut content) {
                Ok(_) => Some(content),
                Err(_) => None,
            }
        },
        Err(_) => None,
    }
}

// ---------------------------------------------------------------------------
// Which entries are wanted
// ---------------------------------------------------------------------------

/// The folder of the wanted texts in an archive whose entries are in a folder
/// `root`, or in none.
pub open spec fn target_of(root: Seq<char>, source_folder: Seq<char>) -> Seq<char> {
    if root.len() == 0 {
        source_folder
    } else {
        root + "/"@ + source_folder
    }
}

/// The folder of the wanted texts in an archive.
pub fn target_folder(root_dir: &str, source_folder: &str) -> (r: String)
    ensures
        r@ == target_of(root_dir@, source_folder@),
{
    if root_dir.is_empty() {
        source_folder.to_string()
    } else {
        concat3(root_dir, "/", source_folder)
    }
}

/// The path below the target folder of an entry that is wanted: one whose name
/// begins with the target folder and ends with `.json`. A slash behind the
/// target folder does not count.
pub open spec fn wanted_path(name: Seq<char>, target: Seq<char>) -> Option<Seq<char>> {
    if !target.is_prefix_of(name) || !".json"@.is_suffix_of(name) {
        None
    } else if target.push('/').is_prefix_of(name) {
        Some(name.skip(target.len() as int + 1))
    } else {
        Some(name.skip(target.len() as int))
    }
}

/// The path below the target folder of an entry that is wanted.
pub fn relative_entry_path(name: &str, target: &str) -> (r: Option<String>)
    ensures
        opt_text(r) == wanted_path(name@, target@),
{
    if !starts_with(name, target) || !ends_with(name, ".json") {
        return None;
    }
    let v = chars_of(name);
    let n = chars_of(target).len();
    if n < v.len() && v[n] == '/' {
        assert(target@.push('/').is_prefix_of(name@)) by {
            assert(target@.push('/') =~= name@.subrange(0, n + 1)) by {
                assert(target@ == name@.subrange(0, n as int));
            }
        }
        Some(text_between(&v, n + 1, v.len()))
    } else {
        assert(!target@.push('/').is_prefix_of(name@)) by {
            if target@.push('/').is_prefix_of(name@) {
                assert(target@.push('/')[n as int] == '/');
                assert(name@.subrange(0, n + 1)[n as int] == name@[n as int]);
            }
        }
        Some(text_between(&v, n, v.len()))
    }
}

/// An entry with this name goes to this path: its name ends with `.json`, and is
/// the target folder, a slash and the path, or the target folder and a path that
/// begins with no slash.
pub open spec fn goes_to(name: Seq<char>, target: Seq<char>, path: Seq<char>) -> bool {
    &&& ".json"@.is_suffix_of(name)
    &&& name == target + seq!['/'] + path || (name == target + path && (path.len() > 0 ==> path[0]
        != '/'))
}

/// An entry is wanted just if there is a path that it goes to, and it goes to
/// that path alone.
pub proof fn law_wanted_path_is_where_the_entry_goes(name: Seq<char>, target: Seq<char>)
    ensures
        forall|path: Seq<char>|
            wanted_path(name, target) == Some(path) <==> #[trigger] goes_to(name, target, path),
{
    assert forall|path: Seq<char>|
        wanted_path(name, target) == Some(path) <==> #[trigger] goes_to(name, target, path) by {
        let n = target.len() as int;
        if goes_to(name, target, path) {
            assert(name.subrange(0, n) == target);
            if name == target + seq!['/'] + path {
                assert(name.subrange(0, n + 1) == target.push('/'));
                assert(name.skip(n + 1) == path);
            } else {
                assert(name == target + path);
                assert(!target.push('/').is_prefix_of(name)) by {
                    if target.push('/').is_prefix_of(name) {
                        assert(name.subrange(0, n + 1)[n] == '/');
                        assert(name[n] == path[0]);
                    }
                }
                assert(name.skip(n) == path);
            }
        }
        if wanted_path(name, target) == Some(path) {
            assert(name.subrange(0, n) == target);
            if target.push('/').is_prefix_of(name) {
                assert(name.subrange(0, n + 1) == target.push('/'));
                assert(name == name.subrange(0, n + 1) + name.skip(n + 1));
                assert(target.push('/') == target + seq!['/']);
            } else {
                assert(name == name.subrange(0, n) + name.skip(n));
                if path.len() > 0 && path[0] == '/' {
                    assert(name.subrange(0, n + 1) =~= target.push('/'));
                }
            }
        }
    }
}

/// An entry is written to a path just if its name ends with `.json` and is the
/// target folder, a slash and the path, or the target folder and a path that
/// begins with no slash.
pub proof fn law_entry_goes_below_the_target(name: Seq<char>, target: Seq<char>, path: Seq<char>)
    ensures
        wanted_path(name, target) == Some(path) <==> ".json"@.is_suffix_of(name) && (name == target
            + seq!['/'] + path || (name == target + path && (path.len() > 0 ==> path[0] != '/'))),
{
    law_wanted_path_is_where_the_entry_goes(name, target);
    assert(wanted_path(name, target) == Some(path) <==> goes_to(name, target, path));
}

/// The folder that an archive's entries are in: what stands before the first
/// slash in the first name that has one, from entry `from` on. An entry that
/// cannot be opened before that is an error.
pub open spec fn detected_root(data: Seq<u8>, from: nat, total: nat) -> Result<Seq<char>, Seq<char>>
    decreases total - from,
{
    if from >= total {
        Ok(Seq::empty())
    } else {
        match zip_entry_name(data, from as int) {
            Err(e) => Err(e),
            Ok(name) => match before(name, '/') {
                Some(root) => Ok(root),
                None => detected_root(data, from + 1, total),
            },
        }
    }
}

/// What an archive holds at an entry: its path below the target folder and its
/// content, if it is wanted and can be read.
pub open spec fn wanted_entry(data: Seq<u8>, target: Seq<char>, index: int) -> Option<
    (Seq<char>, Seq<u8>),
> {
    match zip_entry_name(data, index) {
        Err(_) => None,
        Ok(name) => match wanted_path(name, target) {
            None => None,
            Some(path) => match zip_entry_content(data, index) {
                None => None,
                Some(content) => Some((path, content)),
            },
        },
    }
}

// ---------------------------------------------------------------------------
// The walk
// ---------------------------------------------------------------------------

/// A walk through an archive.
pub struct Extraction {
    archive: ZipArchive<Cursor<Vec<u8>>>,
    target: String,
    total: usize,
    next: usize,
    pending: Option<String>,
    files: Vec<String>,
}

/// A walk through an archive: the archive's bytes, the target folder, how many
/// entries there are, which is next, the path that waits to be written, and
/// the paths that were written.
#[verifier::ext_equal]
pub struct ExtractionView {
    pub data: Seq<u8>,
    pub target: Seq<char>,
    pub total: nat,
    pub next: nat,
    pub pending: Option<Seq<char>>,
    pub files: Seq<Seq<char>>,
}

impl View for Extraction {
    type V = ExtractionView;

    closed spec fn view(&self) -> ExtractionView {
        ExtractionView {
            data: archive_bytes(self.archive),
            target: self.target@,
            total: self.total as nat,
            next: self.next as nat,
            pending: opt_text(self.pending),
            files: texts(self.files@),
        }
    }
}

/// What one entry asks for.
#[derive(Debug)]
pub enum ExtractStep {
    /// Write this content to this path below the temporary folder, and say
    /// what came of it.
    Write { path: String, content: Vec<u8> },
    /// Nothing.
    Skip,
    /// There are no more entries.
    Finished,
}

impl ExtractionView {
    /// The walk is inside the archive, and no more was written than walked by.
    pub open spec fn wf(self) -> bool {
        &&& self.next <= self.total
        &&& self.files.len() + (if self.pending is Some {
            1nat
        } else {
            0
        }) <= self.next
    }

    /// Whether the next entry is one at which the walk can be stopped.
    pub open spec fn may_stop(self) -> bool {
        self.next < self.total && self.next % 200 == 0
    }

    /// What the next entry holds, if there is one that is wanted.
    pub open spec fn here(self) -> Option<(Seq<char>, Seq<u8>)> {
        if self.next < self.total {
            wanted_entry(self.data, self.target, self.next as int)
        } else {
            None
        }
    }

    /// The walk behind the next entry.
    pub open spec fn stepped(self) -> ExtractionView {
        if self.next < self.total {
            ExtractionView {
                next: self.next + 1,
                pending: match self.here() {
                    Some((path, _)) => Some(path),
                    None => None,
                },
                ..self
            }
        } else {
            self
        }
    }

    /// The walk once it is known whether what waited was written.
    pub open spec fn wrote(self, ok: bool) -> ExtractionView {
        ExtractionView {
            pending: None,
            files: match self.pending {
                Some(path) if ok => self.files.push(path),
                _ => self.files,
            },
            ..self
        }
    }

    /// The walk that begins at the first entry.
    pub open spec fn begin(data: Seq<u8>, target: Seq<char>) -> ExtractionView {
        ExtractionView {
            data,
            target,
            total: zip_len(data),
            next: 0,
            pending: None,
            files: Seq::empty(),
        }
    }
}

/// What is told after every hundred files.
pub open spec fn extraction_update(processed: nat, total: nat) -> UpdateView {
    UpdateView::note(
        Progress {
            base_tenths: 450,
            span_tenths: 100,
            done: processed as u64,
            total: total as u64,
        },
        "Extracting... "@ + decimal(processed) + " files"@,
    )
}

/// What is told once the walk is over.
pub open spec fn extraction_done(files: nat) -> UpdateView {
    UpdateView::note(Progress::at(550), "Found "@ + decimal(files) + " files to convert"@)
}

/// An archive that was opened, before the walk.
pub struct OpenArchive {
    archive: ZipArchive<Cursor<Vec<u8>>>,
}

impl OpenArchive {
    /// The bytes of the archive.
    pub closed spec fn data(self) -> Seq<u8> {
        archive_bytes(self.archive)
    }

    /// Opens a downloaded archive.
    pub fn open(zip_data: Vec<u8>) -> (r: Result<OpenArchive, AppError>)
        ensures
            match zip_error(zip_data@) {
                None => r matches Ok(opened) && opened.data() == zip_data@,
                Some(text) => r matches Err(e) && e@ == ErrorView::Zip(text),
            },
    {
        match open_archive(zip_data) {
            Ok(archive) => Ok(OpenArchive { archive }),
            Err(e) => Err(AppError::Zip(e)),
        }
    }

    /// Finds the folder of the wanted texts and begins the walk.
    pub fn extract_files(self, source_folder: &str) -> (r: Result<Extraction, AppError>)
        ensures
            match detected_root(self.data(), 0, zip_len(self.data())) {
                Ok(root) => r matches Ok(walk) && walk@ == ExtractionView::begin(
                    self.data(),
                    target_of(root, source_folder@),
                ) && walk@.wf(),
                Err(text) => r matches Err(e) && e@ == ErrorView::Zip(text),
            },
    {
        let mut archive = self.archive;
        let total = entry_count(&archive);
        let ghost data = self.data();
        let mut root = String::new();
        let mut i: usize = 0;
        while i < total
            invariant_except_break
                root@ == Seq::<char>::empty(),
                detected_root(data, 0, total as nat) == detected_root(data, i as nat, total as nat),
            invariant
                i <= total,
                data == self.data(),
                archive_bytes(archive) == data,
                total == zip_len(data),
            ensures
                detected_root(data, 0, total as nat) == Ok::<Seq<char>, Seq<char>>(root@),
            decreases total - i,
        {
            match entry_name(&mut archive, i) {
                Err(e) => {
                    return Err(AppError::Zip(e));
                },
                Ok(name) => {
                    if let Some(first) = before_first(name.as_str(), '/') {
                        root = first;
                        break;
                    }
                },
            }
            i += 1;
        }
        let target = target_folder(root.as_str(), source_folder);
        let walk = Extraction {
            archive,
            target,
            total,
            next: 0,
            pending: None,
            files: Vec::new(),
        };
        assert(texts(walk.files@) == Seq::<Seq<char>>::empty());
        Ok(walk)
    }
}

impl Extraction {
    /// The folder of the wanted texts.
    pub fn target(&self) -> (r: &str)
        ensures
            r@ == self@.target,
    {
        self.target.as_str()
    }

    /// Looks at the next entry. At every two hundredth, the walk stops if it
    /// was told to.
    pub fn step(&mut self, cancel_flag: Option<bool>) -> (r: Result<ExtractStep, AppError>)
        requires
            old(self)@.wf(),
            old(self)@.pending is None,
        ensures
            final(self)@.wf(),
            if old(self)@.may_stop() && cancel_flag == Some(true) {
                &&& final(self)@ == old(self)@
                &&& r matches Err(e) && e@ == ErrorView::Other("Conversion cancelled by user"@)
            } else {
                &&& final(self)@ == old(self)@.stepped()
                &&& r is Ok
                &&& match r->Ok_0 {
                    ExtractStep::Write { path, content } => old(self)@.here() == Some(
                        (path@, content@),
                    ),
                    ExtractStep::Skip => old(self)@.next < old(self)@.total && old(
                        self,
                    )@.here() is None,
                    ExtractStep::Finished => old(self)@.next == old(self)@.total,
                }
            },
            r matches Ok(ExtractStep::Write { path, content }) ==> {
                let data = old(self)@.data;
                let i = old(self)@.next as int;
                &&& zip_entry_content(data, i) == Some(content@)
                &&& zip_entry_name(data, i) matches Ok(name)
                &&& goes_to(name, old(self)@.target, path@)
            },
            r matches Ok(ExtractStep::Skip) ==> {
                let data = old(self)@.data;
                let i = old(self)@.next as int;
                ||| zip_entry_name(data, i) is Err
                ||| zip_entry_content(data, i) is None
                ||| forall|path: Seq<char>| !#[trigger]
                    goes_to(zip_entry_name(data, i)->Ok_0, old(self)@.target, path)
            },
    {
        if self.next == self.total {
            return Ok(ExtractStep::Finished);
        }
        let i = self.next;
        let ghost data = self@.data;
        let ghost target = self@.target;
        proof {
            if let Ok(name) = zip_entry_name(data, i as int) {
                law_wanted_path_is_where_the_entry_goes(name, target);
                if wanted_path(name, target) is None {
                    assert(forall|path: Seq<char>| !#[trigger] goes_to(name, target, path));
                }
            }
        }
        if i % 200 == 0 {
            if let Err(e) = check_cancelled(cancel_flag) {
                return Err(e);
            }
        }
        self.next = i + 1;
        let name = match entry_name(&mut self.archive, i) {
            Ok(name) => name,
            Err(_) => {
                return Ok(ExtractStep::Skip);
            },
        };
        match relative_entry_path(name.as_str(), self.target.as_str()) {
            None => Ok(ExtractStep::Skip),
            Some(path) => match entry_content(&mut self.archive, i) {
                None => Ok(ExtractStep::Skip),
                Some(content) => {
                    self.pending = Some(path.as_str().to_string());
                    Ok(ExtractStep::Write { path, content })
                },
            },
        }
    }

    /// Takes note of whether what the last step asked for was written. After
    /// every hundred files something is told.
    pub fn written(&mut self, ok: bool) -> (r: Option<ProgressUpdate>)
        requires
            old(self)@.wf(),
            old(self)@.pending is Some,
        ensures
            final(self)@.wf(),
            final(self)@ == old(self)@.wrote(ok),
            match r {
                Some(update) => {
                    &&& ok
                    &&& final(self)@.files.len() % 100 == 0
                    &&& update@ == extraction_update(final(self)@.files.len(), final(self)@.total)
                    &&& update.progress.wf()
                },
                None => !ok || final(self)@.files.len() % 100 != 0,
            },
    {
        let ghost had = texts(self.files@);
        let pending = self.pending.take();
        if !ok {
            return None;
        }
        if let Some(path) = pending {
            self.files.push(path);
            assert(texts(self.files@) == had.push(path@));
        }
        let processed = self.files.len();
        assert(texts(self.files@).len() == processed);
        if processed % 100 == 0 {
            let count = size_to_decimal(processed);
            let message = concat3("Extracting... ", count.as_str(), " files");
            Some(
                ProgressUpdate {
                    progress: Progress {
                        base_tenths: 450,
                        span_tenths: 100,
                        done: processed as u64,
                        total: self.total as u64,
                    },
                    message,
                    current_file: None,
                    total_files: None,
                    processed_files: None,
                },
            )
        } else {
            None
        }
    }

    /// The paths that were written, once the walk is over, and what is told of
    /// them.
    pub fn finish(self) -> (r: (Vec<String>, ProgressUpdate))
        requires
            self@.next == self@.total,
            self@.pending is None,
        ensures
            texts(r.0@) == self@.files,
            r.1@ == extraction_done(self@.files.len()),
    {
        assert(texts(self.files@).len() == self.files@.len());
        let count = size_to_decimal(self.files.len());
        let message = concat3("Found ", count.as_str(), " files to convert");
        let update = note(550, message.as_str());
        (self.files, update)
    }
}

// ---------------------------------------------------------------------------
// What a walk comes to
// ---------------------------------------------------------------------------

/// The paths of the wanted entries before entry `upto`, in the archive's order.
pub open spec fn wanted_before(data: Seq<u8>, target: Seq<char>, upto: nat) -> Seq<Seq<char>>
    decreases upto,
{
    if upto == 0 {
        Seq::empty()
    } else {
        let front = wanted_before(data, target, (upto - 1) as nat);
        match wanted_entry(data, target, upto - 1) {
            Some((path, _)) => front.push(path),
            None => front,
        }
    }
}

impl ExtractionView {
    /// Every wanted entry that was walked by was written, or waits for it.
    pub open spec fn nothing_lost(self) -> bool {
        wanted_before(self.data, self.target, self.next) == (match self.pending {
            Some(path) => self.files.push(path),
            None => self.files,
        })
    }
}

/// The walk from here to the end, where every write succeeds.
pub open spec fn walked_through(walk: ExtractionView) -> ExtractionView
    decreases walk.total - walk.next,
{
    if walk.next < walk.total {
        walked_through(walk.stepped().wrote(true))
    } else {
        walk
    }
}

proof fn lemma_nothing_lost(walk: ExtractionView)
    requires
        walk.next <= walk.total,
        walk.pending is None,
        walk.nothing_lost(),
    ensures
        walked_through(walk).files == wanted_before(walk.data, walk.target, walk.total),
    decreases walk.total - walk.next,
{
    if walk.next < walk.total {
        let after = walk.stepped().wrote(true);
        assert(after.nothing_lost()) by {
            reveal_with_fuel(wanted_before, 2);
        }
        lemma_nothing_lost(after);
    }
}

/// Where every write succeeds, a walk writes all the wanted entries and no
/// others, in the archive's order.
pub proof fn law_walk_writes_all_wanted(data: Seq<u8>, target: Seq<char>)
    ensures
        walked_through(ExtractionView::begin(data, target)).files == wanted_before(
            data,
            target,
            zip_len(data),
        ),
{
    lemma_nothing_lost(ExtractionView::begin(data, target));
}

/// A path that could not be written is not among the files, and the files
/// before it stay.
pub proof fn law_failed_write_is_left_out(walk: ExtractionView)
    ensures
        walk.wrote(false).files == walk.files,
        walk.wrote(false).pending is None,
{
}

/// What a walk writes from here to the end, where every write succeeds: each path
/// with the content that the step asks to be written there.
pub open spec fn writes_from(walk: ExtractionView) -> Seq<(Seq<char>, Seq<u8>)>
    decreases walk.total - walk.next,
{
    if walk.next < walk.total {
        let rest = writes_from(walk.stepped().wrote(true));
        match walk.here() {
            Some(pair) => seq![pair] + rest,
            None => rest,
        }
    } else {
        Seq::empty()
    }
}

/// A walk writes every entry that can be opened and read and that goes to some
/// path, to that path and with its whole content; and it writes no other. It
/// takes the entries one by one, in their order, and its files are the paths that
/// it wrote.
pub proof fn law_walk_writes_each_entry_whole(walk: ExtractionView, path: Seq<char>)
    requires
        walk.next < walk.total,
        walk.pending is None,
    ensures
        ({
            let i = walk.next as int;
            let after = walk.stepped().wrote(true);
            &&& after.next == walk.next + 1
            &&& after.data == walk.data && after.target == walk.target && after.total == walk.total
            &&& after.pending is None
            &&& zip_entry_name(walk.data, i) is Err || zip_entry_content(walk.data, i) is None || (
            forall|path: Seq<char>| !#[trigger]
                goes_to(zip_entry_name(walk.data, i)->Ok_0, walk.target, path))
                ==> writes_from(walk) == writes_from(after) && after.files == walk.files
            &&& zip_entry_name(walk.data, i) is Ok && zip_entry_content(walk.data, i) is Some
                && goes_to(zip_entry_name(walk.data, i)->Ok_0, walk.target, path)
                ==> writes_from(walk) == seq![
                (path, zip_entry_content(walk.data, i)->Some_0),
            ] + writes_from(after) && after.files == walk.files.push(path)
        }),
{
    if let Ok(name) = zip_entry_name(walk.data, walk.next as int) {
        law_wanted_path_is_where_the_entry_goes(name, walk.target);
        if let Some(p) = wanted_path(name, walk.target) {
            assert(goes_to(name, walk.target, p));
        }
    }
}

/// Entries of a walk that starts at the beginning: nothing is written yet, and
/// all entries of the archive are before it.
pub proof fn law_walk_begins_at_the_first_entry(data: Seq<u8>, target: Seq<char>)
    ensures
        ExtractionView::begin(data, target).next == 0,
        ExtractionView::begin(data, target).total == zip_len(data),
        ExtractionView::begin(data, target).data == data,
        ExtractionView::begin(data, target).target == target,
        ExtractionView::begin(data, target).pending is None,
        ExtractionView::begin(data, target).files == Seq::<Seq<char>>::empty(),
{
}

/// Every wanted entry of the archive is written whole by a walk from the
/// beginning, wherever it stands and however long it is; and whatever is written
/// is the whole of such an entry.
pub proof fn law_every_wanted_entry_is_written_whole(
    data: Seq<u8>,
    target: Seq<char>,
    i: int,
    name: Seq<char>,
    path: Seq<char>,
    content: Seq<u8>,
)
    requires
        0 <= i < zip_len(data),
        zip_entry_name(data, i) == Ok::<Seq<char>, Seq<char>>(name),
        goes_to(name, target, path),
        zip_entry_content(data, i) == Some(content),
    ensures
        writes_from(ExtractionView::begin(data, target)).contains((path, content)),
{
    lemma_written_from(ExtractionView::begin(data, target), i, name, path, content);
}

proof fn lemma_written_from(
    walk: ExtractionView,
    i: int,
    name: Seq<char>,
    path: Seq<char>,
    content: Seq<u8>,
)
    requires
        walk.next <= i < walk.total,
        walk.pending is None,
        zip_entry_name(walk.data, i) == Ok::<Seq<char>, Seq<char>>(name),
        goes_to(name, walk.target, path),
        zip_entry_content(walk.data, i) == Some(content),
    ensures
        writes_from(walk).contains((path, content)),
    decreases walk.total - walk.next,
{
    let after = walk.stepped().wrote(true);
    let all = writes_from(walk);
    let rest = writes_from(after);
    law_walk_writes_each_entry_whole(walk, path);
    if walk.next == i {
        assert(all[0] == (path, content));
    } else {
        lemma_written_from(after, i, name, path, content);
        let k = choose|k: int| 0 <= k < rest.len() && rest[k] == (path, content);
        if walk.here() is Some {
            assert(all[k + 1] == rest[k]);
        } else {
            assert(all[k] == rest[k]);
        }
    }
}

/// Whatever a walk from the beginning writes is an entry of the archive, whole,
/// at the path that it goes to.
pub proof fn law_only_whole_entries_are_written(
    data: Seq<u8>,
    target: Seq<char>,
    path: Seq<char>,
    content: Seq<u8>,
)
    requires
        writes_from(ExtractionView::begin(data, target)).contains((path, content)),
    ensures
        exists|i: int|
            0 <= i < zip_len(data) && zip_entry_content(data, i) == Some(content) && (
            #[trigger] zip_entry_name(data, i)) is Ok && goes_to(
                zip_entry_name(data, i)->Ok_0,
                target,
                path,
            ),
{
    lemma_only_whole(ExtractionView::begin(data, target), path, content);
}

proof fn lemma_only_whole(walk: ExtractionView, path: Seq<char>, content: Seq<u8>)
    requires
        walk.next <= walk.total,
        walk.pending is None,
        writes_from(walk).contains((path, content)),
    ensures
        exists|i: int|
            walk.next <= i < walk.total && zip_entry_content(walk.data, i) == Some(content) && (
            #[trigger] zip_entry_name(walk.data, i)) is Ok && goes_to(
                zip_entry_name(walk.data, i)->Ok_0,
                walk.target,
                path,
            ),
    decreases walk.total - walk.next,
{
    let all = writes_from(walk);
    let k = choose|k: int| 0 <= k < all.len() && all[k] == (path, content);
    let after = walk.stepped().wrote(true);
    let rest = writes_from(after);
    if walk.here() is Some && k == 0 {
        let name = zip_entry_name(walk.data, walk.next as int)->Ok_0;
        law_wanted_path_is_where_the_entry_goes(name, walk.target);
        assert(goes_to(name, walk.target, path));
        assert(zip_entry_name(walk.data, walk.next as int) is Ok);
    } else {
        if walk.here() is Some {
            assert(rest[k - 1] == all[k]);
        } else {
            assert(rest[k] == all[k]);
        }
        lemma_only_whole(after, path, content);
    }
}

/// The folder that an archive's entries are in is what stands before the slash
/// in the first name that has one, and empty where none has. An entry before
/// that which cannot be opened is the error.
pub proof fn law_root_is_before_the_first_slash(
    data: Seq<u8>,
    at: nat,
    total: nat,
    root: Seq<char>,
    rest: Seq<char>,
    error: Seq<char>,
)
    requires
        at <= total,
        forall|i: int|
            0 <= i < at ==> (#[trigger] zip_entry_name(data, i)) is Ok && !zip_entry_name(
                data,
                i,
            )->Ok_0.contains('/'),
        !root.contains('/'),
    ensures
        at == total ==> detected_root(data, 0, total) == Ok::<Seq<char>, Seq<char>>(Seq::empty()),
        at < total && zip_entry_name(data, at as int) == Ok::<Seq<char>, Seq<char>>(
            root + seq!['/'] + rest,
        ) ==> detected_root(data, 0, total) == Ok::<Seq<char>, Seq<char>>(root),
        at < total && zip_entry_name(data, at as int) == Err::<Seq<char>, Seq<char>>(error)
            ==> detected_root(data, 0, total) == Err::<Seq<char>, Seq<char>>(error),
{
    lemma_root_from(data, 0, at, total);
    law_before_is_up_to_the_first(root, '/', rest);
    assert(root + seq!['/'] + rest == root.push('/') + rest);
}

proof fn lemma_root_from(data: Seq<u8>, from: nat, at: nat, total: nat)
    requires
        from <= at <= total,
        forall|i: int|
            0 <= i < at ==> (#[trigger] zip_entry_name(data, i)) is Ok && !zip_entry_name(
                data,
                i,
            )->Ok_0.contains('/'),
    ensures
        detected_root(data, from, total) == detected_root(data, at, total),
    decreases at - from,
{
    if from < at {
        let name = zip_entry_name(data, from as int)->Ok_0;
        law_before_is_up_to_the_first(name, '/', Seq::empty());
        lemma_root_from(data, from + 1, at, total);
    }
}

/// The target folder is the source folder below the root folder, and the source
/// folder itself where there is no root folder.
pub proof fn law_target_is_below_the_root(root: Seq<char>, source: Seq<char>)
    ensures
        root.len() == 0 ==> target_of(root, source) == source,
        root.len() > 0 ==> target_of(root, source) == root + seq!['/'] + source,
{
    reveal_strlit("/");
    assert("/"@ == seq!['/']);
}

/// What is told of a walk: how many files of how many entries, and behind it how
/// many files there are.
pub proof fn law_walk_tells_its_count(processed: nat, total: nat)
    ensures
        extraction_update(processed, total).message == "Extracting... "@ + decimal(processed)
            + " files"@,
        extraction_update(processed, total).progress == (Progress {
            base_tenths: 450,
            span_tenths: 100,
            done: processed as u64,
            total: total as u64,
        }),
        extraction_done(processed).message == "Found "@ + decimal(processed)
            + " files to convert"@,
        extraction_done(processed).progress == Progress::at(550),
{
}

/// A walk looks at every two hundredth entry whether it was told to stop, and at
/// no other; behind the last entry it stays where it is.
pub proof fn law_walk_stops_at_two_hundreds(walk: ExtractionView)
    ensures
        walk.may_stop() <==> walk.next < walk.total && walk.next % 200 == 0,
        walk.next >= walk.total ==> walk.stepped() == walk,
{
}

/// What a step asked for counts as a file just if it was written; the walk goes on
/// from where it is either way.
pub proof fn law_written_paths_are_kept(walk: ExtractionView, path: Seq<char>)
    requires
        walk.pending == Some(path),
    ensures
        walk.wrote(true).files == walk.files.push(path),
        walk.wrote(false).files == walk.files,
        forall|ok: bool|
            {
                let after = #[trigger] walk.wrote(ok);
                &&& after.pending is None
                &&& after.next == walk.next
                &&& after.total == walk.total
                &&& after.data == walk.data
                &&& after.target == walk.target
            },
{
}

} // verus!
