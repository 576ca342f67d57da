//! The order in which the voice files are brought up to date: nothing old is
//! removed and nothing new is written before every file was downloaded.
use vstd::prelude::*;

use crate::error::{AppError, ErrorView};
use crate::numbers::decimal;
use crate::progress::{ProgressUpdate, UpdateView};
use crate::release::{check_cancelled, Reply};
use crate::text::opt_text;
use crate::voice::{date_to_record, has_json_file, items, json_error, json_file, law_listed_are_the_json_files, law_voice_list_is_listed, list_outcome, old_names, recorded_date, told, voice_list, FileView, ItemView, RepoContentItem, VoiceCleanup, VoiceCleanupView, VoiceDownload, VoiceDownloadView, VoiceFile, VoiceInstall, VoiceInstallView};

verus! {

/// Where the work on the voice files stands.
#[derive(Debug)]
enum SyncStage {
    /// The folder is to be made.
    Folder,
    /// The date is to be asked for.
    Date,
    /// The list is to be asked for.
    List,
    /// The files are downloaded.
    Download(VoiceDownload),
    /// The old files are removed.
    Cleanup(VoiceCleanup),
    /// The files are written.
    Install(VoiceInstall),
}

/// Where the work on the voice files stands, by its characters and bytes.
#[verifier::ext_equal]
pub enum SyncStageView {
    Folder,
    Date,
    List,
    Download(VoiceDownloadView),
    Cleanup(VoiceCleanupView),
    Install(VoiceInstallView),
}

impl View for SyncStage {
    type V = SyncStageView;

    closed spec fn view(&self) -> SyncStageView {
        match *self {
            SyncStage::Folder => SyncStageView::Folder,
            SyncStage::Date => SyncStageView::Date,
            SyncStage::List => SyncStageView::List,
            SyncStage::Download(download) => SyncStageView::Download(download@),
            SyncStage::Cleanup(cleanup) => SyncStageView::Cleanup(cleanup@),
            SyncStage::Install(install) => SyncStageView::Install(install@),
        }
    }
}

/// The work on the voice files: where it stands, and the date to record.
#[derive(Debug)]
pub struct VoiceSync {
    stage: SyncStage,
    date: Option<String>,
}

/// A [`VoiceSync`] by its characters and bytes.
#[verifier::ext_equal]
pub struct SyncView {
    pub stage: SyncStageView,
    pub date: Option<Seq<char>>,
}

impl View for VoiceSync {
    type V = SyncView;

    closed spec fn view(&self) -> SyncView {
        SyncView { stage: self.stage@, date: opt_text(self.date) }
    }
}

/// What is to be done next.
#[derive(Debug)]
pub enum SyncAsk<'a> {
    /// Make the folder of the translation.
    MakeFolder,
    /// Ask for the date of the latest change.
    AskDate,
    /// Ask for the list of files.
    AskList,
    /// Get a file; what is told before that.
    Get { url: String, update: ProgressUpdate },
    /// Remove a file from the folder, if it is there.
    Remove(String),
    /// Write a file into the folder.
    Write(&'a VoiceFile),
    /// Nothing.
    Finished,
}

/// A [`SyncAsk`] by its characters and bytes.
#[verifier::ext_equal]
pub enum AskView {
    MakeFolder,
    AskDate,
    AskList,
    Get { url: Seq<char>, update: UpdateView },
    Remove(Seq<char>),
    Write(FileView),
    Finished,
}

impl<'a> View for SyncAsk<'a> {
    type V = AskView;

    open spec fn view(&self) -> AskView {
        match *self {
            SyncAsk::MakeFolder => AskView::MakeFolder,
            SyncAsk::AskDate => AskView::AskDate,
            SyncAsk::AskList => AskView::AskList,
            SyncAsk::Get { url, update } => AskView::Get { url: url@, update: update@ },
            SyncAsk::Remove(name) => AskView::Remove(name@),
            SyncAsk::Write(file) => AskView::Write(file@),
            SyncAsk::Finished => AskView::Finished,
        }
    }
}

/// What came of what was to be done.
#[derive(Debug)]
pub enum SyncAnswer {
    /// The folder was made, or why not.
    Folder(Result<(), String>),
    /// The date, or why it could not be had.
    Date(Result<Option<String>, AppError>),
    /// What came back for the list.
    List(Reply<Vec<RepoContentItem>>),
    /// What came back for a file.
    File(Reply<Vec<u8>>),
    /// An old file is gone, or why not.
    Removed(Result<(), String>),
    /// A file was written, or why not.
    Written(Result<(), String>),
}

impl SyncView {
    /// The work before anything was done.
    pub open spec fn begin() -> SyncView {
        SyncView { stage: SyncStageView::Folder, date: None }
    }

    /// There is something left to do where the work stands, or every file was
    /// written.
    pub open spec fn wf(self) -> bool {
        match self.stage {
            SyncStageView::Download(download) => download.wf() && download.files.len()
                < download.items.len(),
            SyncStageView::Cleanup(cleanup) => cleanup.next < old_names().len(),
            SyncStageView::Install(install) => install.wf(),
            _ => true,
        }
    }

    /// Every file was written.
    pub open spec fn finished(self) -> bool {
        self.stage matches SyncStageView::Install(install) && install.next == install.files.len()
    }

    /// What is to be done next. Where the work was told to stop, nothing more
    /// is asked for, downloaded or written.
    pub open spec fn asks(self, cancel_flag: Option<bool>) -> Result<AskView, ErrorView> {
        let stopped = told("Conversion cancelled by user"@);
        match self.stage {
            SyncStageView::Folder => Ok(AskView::MakeFolder),
            SyncStageView::Date => Ok(AskView::AskDate),
            SyncStageView::List => if cancel_flag == Some(true) {
                Err(stopped)
            } else {
                Ok(AskView::AskList)
            },
            SyncStageView::Download(download) => if cancel_flag == Some(true) {
                Err(stopped)
            } else {
                match download.here().download_url {
                    None => Err(
                        told("Missing download_url for file "@ + download.here().name),
                    ),
                    Some(url) => Ok(AskView::Get { url, update: download.downloading() }),
                }
            },
            SyncStageView::Cleanup(cleanup) => Ok(
                AskView::Remove(old_names()[cleanup.next as int]),
            ),
            SyncStageView::Install(install) => if self.finished() {
                Ok(AskView::Finished)
            } else if cancel_flag == Some(true) {
                Err(stopped)
            } else {
                Ok(AskView::Write(install.files[install.next as int]))
            },
        }
    }

    /// This is what can come of what is to be done next.
    pub open spec fn expects(self, answer: SyncAnswer) -> bool {
        match self.stage {
            SyncStageView::Folder => answer is Folder,
            SyncStageView::Date => answer is Date,
            SyncStageView::List => answer is List,
            SyncStageView::Download(_) => answer is File,
            SyncStageView::Cleanup(_) => answer is Removed,
            SyncStageView::Install(_) => answer is Written && !self.finished(),
        }
    }

    /// Where the work stands once it is known what came of what was to be done,
    /// or the error that it ends with. A date that could not be had is none.
    pub open spec fn after(self, answer: SyncAnswer) -> Result<SyncView, ErrorView> {
        match (self.stage, answer) {
            (SyncStageView::Folder, SyncAnswer::Folder(Err(e))) => Err(
                told("Failed to create LLC_zh-Hant directory: "@ + e@),
            ),
            (SyncStageView::Folder, _) => Ok(SyncView { stage: SyncStageView::Date, ..self }),
            (SyncStageView::Date, SyncAnswer::Date(date)) => Ok(
                SyncView { stage: SyncStageView::List, date: recorded_date(date) },
            ),
            (SyncStageView::List, SyncAnswer::List(reply)) => match list_outcome(reply) {
                Err(e) => Err(e),
                Ok(list) => Ok(
                    SyncView {
                        stage: SyncStageView::Download(
                            VoiceDownloadView { items: list, files: Seq::empty() },
                        ),
                        ..self
                    },
                ),
            },
            (SyncStageView::Download(download), SyncAnswer::File(reply)) => match download.received(
                reply,
            ) {
                Err(e) => Err(e),
                Ok(more) => Ok(
                    SyncView {
                        stage: if more.files.len() == more.items.len() {
                            SyncStageView::Cleanup(VoiceCleanupView { files: more.files, next: 0 })
                        } else {
                            SyncStageView::Download(more)
                        },
                        ..self
                    },
                ),
            },
            (SyncStageView::Cleanup(cleanup), SyncAnswer::Removed(outcome)) => match cleanup.removed(
                outcome,
            ) {
                Err(e) => Err(e),
                Ok(more) => Ok(
                    SyncView {
                        stage: if more.next == old_names().len() {
                            SyncStageView::Install(VoiceInstallView { files: more.files, next: 0 })
                        } else {
                            SyncStageView::Cleanup(more)
                        },
                        ..self
                    },
                ),
            },
            (SyncStageView::Install(install), SyncAnswer::Written(outcome)) => match install.written(
                outcome,
            ) {
                Err(e) => Err(e),
                Ok(more) => Ok(SyncView { stage: SyncStageView::Install(more), ..self }),
            },
            _ => Ok(self),
        }
    }

    /// What is told once something was done, if anything is.
    pub open spec fn tells(self) -> Option<UpdateView> {
        match self.stage {
            SyncStageView::Install(install) => Some(install.installed()),
            _ => None,
        }
    }
}

impl VoiceSync {
    /// The work before anything was done.
    pub fn copy_voice_files() -> (r: VoiceSync)
        ensures
            r@ == SyncView::begin(),
            r@.wf(),
    {
        VoiceSync { stage: SyncStage::Folder, date: None }
    }

    /// What is to be done next.
    pub fn ask(&self, cancel_flag: Option<bool>) -> (r: Result<SyncAsk<'_>, AppError>)
        requires
            self@.wf(),
        ensures
            match self@.asks(cancel_flag) {
                Ok(ask) => r matches Ok(asked) && asked@ == ask,
                Err(e) => r matches Err(err) && err@ == e,
            },
            r matches Ok(SyncAsk::Get { url, update }) ==> update.progress.wf(),
    {
        match &self.stage {
            SyncStage::Folder => Ok(SyncAsk::MakeFolder),
            SyncStage::Date => Ok(SyncAsk::AskDate),
            SyncStage::List => match check_cancelled(cancel_flag) {
                Err(e) => Err(e),
                Ok(()) => Ok(SyncAsk::AskList),
            },
            SyncStage::Download(download) => match download.request(cancel_flag) {
                Err(e) => Err(e),
                Ok(Some((url, update))) => Ok(SyncAsk::Get { url, update }),
                Ok(None) => Ok(SyncAsk::Finished),
            },
            SyncStage::Cleanup(cleanup) => match cleanup.current() {
                Some(name) => Ok(SyncAsk::Remove(name)),
                None => Ok(SyncAsk::Finished),
            },
            SyncStage::Install(install) => match install.current(cancel_flag) {
                Err(e) => Err(e),
                Ok(Some(file)) => Ok(SyncAsk::Write(file)),
                Ok(None) => Ok(SyncAsk::Finished),
            },
        }
    }

    /// Goes on from what was done; what is told of it. Work that failed cannot
    /// go on.
    pub fn answer(self, answer: SyncAnswer) -> (r: Result<
        (VoiceSync, Option<ProgressUpdate>),
        AppError,
    >)
        requires
            self@.wf(),
            self@.expects(answer),
        ensures
            match self@.after(answer) {
                Ok(after) => {
                    &&& r is Ok
                    &&& r->Ok_0.0@ == after
                    &&& after.wf()
                    &&& match r->Ok_0.1 {
                        Some(update) => self@.tells() == Some(update@) && update.progress.wf(),
                        None => self@.tells() is None,
                    }
                },
                Err(e) => r matches Err(err) && err@ == e,
            },
    {
        let date = self.date;
        match (self.stage, answer) {
            (SyncStage::Folder, SyncAnswer::Folder(Err(e))) => Err(
                AppError::other("Failed to create LLC_zh-Hant directory: ", e.as_str()),
            ),
            (SyncStage::Folder, _) => Ok((VoiceSync { stage: SyncStage::Date, date }, None)),
            (SyncStage::Date, SyncAnswer::Date(found)) => Ok(
                (VoiceSync { stage: SyncStage::List, date: date_to_record(found) }, None),
            ),
            (SyncStage::List, SyncAnswer::List(reply)) => match VoiceDownload::download_voice_files(
                reply,
            ) {
                Err(e) => Err(e),
                Ok(download) => Ok((VoiceSync { stage: SyncStage::Download(download), date }, None)),
            },
            (SyncStage::Download(download), SyncAnswer::File(reply)) => {
                let mut download = download;
                let files = match download.receive(reply) {
                    Err(e) => Err(e),
                    Ok(()) => {
                        if !download.complete() {
                            return Ok(
                                (VoiceSync { stage: SyncStage::Download(download), date }, None),
                            );
                        }
                        Ok(download.finish())
                    },
                };
                match VoiceCleanup::after_download(files) {
                    Err(e) => Err(e),
                    Ok(cleanup) => Ok(
                        (VoiceSync { stage: SyncStage::Cleanup(cleanup), date }, None),
                    ),
                }
            },
            (SyncStage::Cleanup(cleanup), SyncAnswer::Removed(outcome)) => {
                let mut cleanup = cleanup;
                if let Err(e) = cleanup.cleanup_old_voice_files(outcome) {
                    return Err(e);
                }
                let stage = if cleanup.current().is_none() {
                    SyncStage::Install(cleanup.finish())
                } else {
                    SyncStage::Cleanup(cleanup)
                };
                Ok((VoiceSync { stage, date }, None))
            },
            (SyncStage::Install(install), SyncAnswer::Written(outcome)) => {
                let mut install = install;
                match install.file_written(outcome) {
                    Err(e) => Err(e),
                    Ok(update) => Ok(
                        (VoiceSync { stage: SyncStage::Install(install), date }, Some(update)),
                    ),
                }
            },
            (stage, _) => Ok((VoiceSync { stage, date }, None)),
        }
    }

    /// The date to record, once every file was written.
    pub fn finish(self) -> (r: Option<String>)
        requires
            self@.finished(),
        ensures
            opt_text(r) == self@.date,
    {
        self.date
    }
}

// ---------------------------------------------------------------------------
// What the order comes to
// ---------------------------------------------------------------------------

/// Where the work stands behind what was done; nothing where that is not the
/// work on the voice files, or failed.
pub open spec fn sync_run(answers: Seq<SyncAnswer>) -> Option<SyncView>
    decreases answers.len(),
{
    if answers.len() == 0 {
        Some(SyncView::begin())
    } else {
        match sync_run(answers.drop_last()) {
            Some(state) if state.expects(answers.last()) => match state.after(answers.last()) {
                Ok(after) => Some(after),
                Err(_) => None,
            },
            _ => None,
        }
    }
}

/// The voice files that the list named, where it came.
pub open spec fn files_listed(answers: Seq<SyncAnswer>) -> Seq<ItemView> {
    match answers[2] {
        SyncAnswer::List(Reply::Received(entries)) => voice_list(items(entries@)),
        _ => Seq::empty(),
    }
}

/// The first `n` files of the list were downloaded and are JSON.
pub open spec fn downloaded(answers: Seq<SyncAnswer>, n: int) -> bool {
    &&& answers.len() >= 3 + n
    &&& answers[2] is List
    &&& n <= files_listed(answers).len()
    &&& forall|i: int|
        0 <= i < n ==> ((#[trigger] answers[3 + i]) matches SyncAnswer::File(
            Reply::Received(content),
        ) && json_error(content@) is None)
}

/// The file of the list at a place, as it was downloaded.
pub open spec fn file_at(answers: Seq<SyncAnswer>, i: int) -> FileView {
    FileView {
        name: files_listed(answers)[i].name,
        content: match answers[3 + i] {
            SyncAnswer::File(Reply::Received(content)) => content@,
            _ => Seq::empty(),
        },
    }
}

/// The first `n` files of the list, as they were downloaded.
pub open spec fn files_of(answers: Seq<SyncAnswer>, n: nat) -> Seq<FileView> {
    Seq::new(n, |i: int| file_at(answers, i))
}

/// The first `n` old files are gone.
pub open spec fn old_gone(answers: Seq<SyncAnswer>, n: int) -> bool {
    let from = 3 + files_listed(answers).len();
    &&& answers.len() >= from + n
    &&& forall|i: int|
        from <= i < from + n ==> ((#[trigger] answers[i]) matches SyncAnswer::Removed(Ok(_)))
}

/// The first `n` files of the list were written.
pub open spec fn all_written(answers: Seq<SyncAnswer>, n: int) -> bool {
    let from = 3 + files_listed(answers).len() + old_names().len();
    &&& answers.len() >= from + n
    &&& forall|i: int|
        from <= i < from + n ==> ((#[trigger] answers[i]) matches SyncAnswer::Written(Ok(_)))
}

/// Where the work stands, by what was done.
pub open spec fn stands(answers: Seq<SyncAnswer>, state: SyncView) -> bool {
    let total = files_listed(answers).len();
    match state.stage {
        SyncStageView::Folder => answers.len() == 0,
        SyncStageView::Date => answers.len() == 1,
        SyncStageView::List => answers.len() == 2 && answers[1] is Date,
        SyncStageView::Download(download) => {
            &&& answers.len() == 3 + download.files.len()
            &&& answers[1] is Date
            &&& downloaded(answers, download.files.len() as int)
            &&& download.items == files_listed(answers)
            &&& download.files == files_of(answers, download.files.len())
        },
        SyncStageView::Cleanup(cleanup) => {
            &&& answers.len() == 3 + total + cleanup.next
            &&& answers[1] is Date
            &&& downloaded(answers, total as int)
            &&& cleanup.files == files_of(answers, total)
            &&& old_gone(answers, cleanup.next as int)
        },
        SyncStageView::Install(install) => {
            &&& answers.len() == 3 + total + 3 + install.next
            &&& answers[1] is Date
            &&& downloaded(answers, total as int)
            &&& install.files == files_of(answers, total)
            &&& old_gone(answers, 3)
            &&& all_written(answers, install.next as int)
        },
    }
}

/// The date that came back.
pub open spec fn date_in(answers: Seq<SyncAnswer>) -> Option<Seq<char>> {
    match answers[1] {
        SyncAnswer::Date(date) => recorded_date(date),
        _ => None,
    }
}

proof fn lemma_sync_stands(answers: Seq<SyncAnswer>)
    requires
        sync_run(answers) is Some,
    ensures
        stands(answers, sync_run(answers)->Some_0),
        sync_run(answers)->Some_0.wf(),
        answers.len() >= 2 ==> sync_run(answers)->Some_0.date == date_in(answers),
    decreases answers.len(),
{
    if answers.len() > 0 {
        let front = answers.drop_last();
        let last = answers.last();
        lemma_sync_stands(front);
        let before = sync_run(front)->Some_0;
        let after = sync_run(answers)->Some_0;
        assert(forall|i: int| 0 <= i < front.len() ==> front[i] == answers[i]);
        if front.len() >= 3 {
            assert(files_listed(front) == files_listed(answers));
            assert(forall|i: int| 3 <= 3 + i < front.len() ==> file_at(front, i) == file_at(answers, i));
        }
        let total = files_listed(answers).len();
        match before.stage {
            SyncStageView::List => {
                if let SyncAnswer::List(Reply::Received(entries)) = last {
                    let all = items(entries@);
                    law_voice_list_is_listed(all);
                    assert(has_json_file(all));
                    let i = choose|i: int| 0 <= i < all.len() && json_file(#[trigger] all[i]);
                    assert(all.contains(all[i]));
                    law_listed_are_the_json_files(voice_list(all), all, all[i]);
                    assert(files_of(answers, 0) == Seq::<FileView>::empty());
                }
            },
            SyncStageView::Download(download) => {
                let n = download.files.len();
                let more = download.received(last->File_0)->Ok_0;
                assert(files_of(answers, n + 1) == files_of(answers, n).push(
                    file_at(answers, n as int),
                ));
                assert(files_of(front, n) == files_of(answers, n));
                assert(answers[3 + n as int] == last);
                assert(more.files == files_of(answers, n + 1));
                assert forall|i: int| 0 <= i < n + 1 implies ((
                #[trigger] answers[3 + i]) matches SyncAnswer::File(Reply::Received(content))
                    && json_error(content@) is None) by {
                    if i < n {
                        assert(front[3 + i] == answers[3 + i]);
                    }
                }
                assert(downloaded(answers, n as int + 1));
            },
            SyncStageView::Cleanup(cleanup) => {
                assert(files_of(front, total) == files_of(answers, total));
                assert forall|i: int| 0 <= i < total implies ((
                #[trigger] answers[3 + i]) matches SyncAnswer::File(Reply::Received(content))
                    && json_error(content@) is None) by {
                    assert(front[3 + i] == answers[3 + i]);
                }
                assert forall|i: int| 3 + total <= i < 3 + total + cleanup.next + 1 implies (
                (#[trigger] answers[i]) matches SyncAnswer::Removed(Ok(_))) by {
                    if i < 3 + total + cleanup.next {
                        assert(front[i] == answers[i]);
                    }
                }
            },
            SyncStageView::Install(install) => {
                assert(files_of(front, total) == files_of(answers, total));
                assert forall|i: int| 0 <= i < total implies ((
                #[trigger] answers[3 + i]) matches SyncAnswer::File(Reply::Received(content))
                    && json_error(content@) is None) by {
                    assert(front[3 + i] == answers[3 + i]);
                }
                assert forall|i: int| 3 + total <= i < 3 + total + 3 implies (
                (#[trigger] answers[i]) matches SyncAnswer::Removed(Ok(_))) by {
                    assert(front[i] == answers[i]);
                }
                assert forall|i: int| 6 + total <= i < 6 + total + install.next + 1 implies ((
                #[trigger] answers[i]) matches SyncAnswer::Written(Ok(_))) by {
                    if i < 6 + total + install.next {
                        assert(front[i] == answers[i]);
                    }
                }
            },
            _ => {},
        }
    }
}

/// No old file is removed before every file of the list was downloaded and is
/// JSON. So a download that fails leaves every old file where it is.
pub proof fn law_old_files_stay_until_all_is_downloaded(
    answers: Seq<SyncAnswer>,
    cancel_flag: Option<bool>,
)
    requires
        sync_run(answers) is Some,
        sync_run(answers)->Some_0.asks(cancel_flag) matches Ok(AskView::Remove(_)),
    ensures
        downloaded(answers, files_listed(answers).len() as int),
{
    lemma_sync_stands(answers);
}

/// A file is written only once every file of the list was downloaded and is
/// JSON, and the three old files are gone. The files are written in the order
/// of the list, each as it was downloaded.
pub proof fn law_files_are_written_as_downloaded(
    answers: Seq<SyncAnswer>,
    cancel_flag: Option<bool>,
)
    requires
        sync_run(answers) is Some,
        sync_run(answers)->Some_0.asks(cancel_flag) matches Ok(AskView::Write(_)),
    ensures
        ({
            let total = files_listed(answers).len();
            &&& downloaded(answers, total as int)
            &&& old_gone(answers, 3)
            &&& sync_run(answers)->Some_0.asks(cancel_flag) == Ok::<AskView, ErrorView>(
                AskView::Write(file_at(answers, answers.len() - 6 - total)),
            )
        }),
{
    lemma_sync_stands(answers);
}

/// Work that is finished has downloaded, and then written, every file of the
/// list, and records the date that came back for the latest change.
pub proof fn law_finished_sync_wrote_every_file(answers: Seq<SyncAnswer>)
    requires
        sync_run(answers) is Some,
        sync_run(answers)->Some_0.finished(),
    ensures
        downloaded(answers, files_listed(answers).len() as int),
        old_gone(answers, 3),
        all_written(answers, files_listed(answers).len() as int),
        answers.len() == 6 + 2 * files_listed(answers).len(),
        sync_run(answers)->Some_0.date == date_in(answers),
{
    lemma_sync_stands(answers);
}

/// The voice work asks for everything in its order: the folder, the date and the
/// list; then each file of the list by the address that its own entry gives, in
/// the order of the list; then the removal of the three old files; then the
/// writing of each file, under the name of its own entry and with the bytes that
/// came back for it.
pub proof fn law_everything_is_asked_for_in_order(answers: Seq<SyncAnswer>)
    requires
        sync_run(answers) is Some,
    ensures
        ({
            let asked = sync_run(answers)->Some_0.asks(Some(false));
            let n = answers.len();
            let list = files_listed(answers);
            let total = list.len();
            &&& n == 0 ==> asked == Ok::<AskView, ErrorView>(AskView::MakeFolder)
            &&& n == 1 ==> asked == Ok::<AskView, ErrorView>(AskView::AskDate)
            &&& n == 2 ==> asked == Ok::<AskView, ErrorView>(AskView::AskList)
            &&& 3 <= n < 3 + total ==> match list[n - 3].download_url {
                Some(address) => {
                    &&& asked matches Ok(AskView::Get { url, update })
                    &&& url == address
                    &&& update.current_file == Some(list[n - 3].name)
                    &&& update.message == "Downloading voice file "@ + list[n - 3].name + " ("@
                        + decimal((n - 2) as nat) + "/"@ + decimal(total) + ")"@
                },
                None => asked == Err::<AskView, ErrorView>(
                    ErrorView::Other("Missing download_url for file "@ + list[n - 3].name),
                ),
            }
            &&& n >= 3 && n == 3 + total ==> asked == Ok::<AskView, ErrorView>(
                AskView::Remove("BattleSpeechBubbleDlg.json"@),
            )
            &&& n >= 3 && n == 4 + total ==> asked == Ok::<AskView, ErrorView>(
                AskView::Remove("BattleSpeechBubbleDlg_Cultivation.json"@),
            )
            &&& n >= 3 && n == 5 + total ==> asked == Ok::<AskView, ErrorView>(
                AskView::Remove("BattleSpeechBubbleDlg_mowe.json"@),
            )
            &&& n >= 3 && 6 + total <= n < 6 + 2 * total ==> {
                &&& asked matches Ok(AskView::Write(file))
                &&& file.name == list[n - 6 - total].name
                &&& answers[n - 3 - total] matches SyncAnswer::File(Reply::Received(content))
                &&& file.content == content@
            }
            &&& n >= 3 && n >= 6 + 2 * total ==> asked == Ok::<AskView, ErrorView>(
                AskView::Finished,
            )
        }),
{
    lemma_sync_stands(answers);
    let n = answers.len();
    let total = files_listed(answers).len();
    if n >= 3 {
        lemma_list_nonempty(answers);
        if 6 + total <= n < 6 + 2 * total {
            let i = n - 6 - total;
            assert(answers[3 + i] is File);
            assert(3 + i == n - 3 - total);
        }
    }
}

/// The list that was received is not empty.
proof fn lemma_list_nonempty(answers: Seq<SyncAnswer>)
    requires
        sync_run(answers) is Some,
        answers.len() >= 3,
    ensures
        files_listed(answers).len() > 0,
    decreases answers.len(),
{
    let front = answers.drop_last();
    if answers.len() > 3 {
        lemma_list_nonempty(front);
        assert(front[2] == answers[2]);
    } else {
        lemma_sync_stands(answers);
        lemma_sync_stands(front);
        if let SyncAnswer::List(Reply::Received(entries)) = answers[2] {
            let all = items(entries@);
            law_voice_list_is_listed(all);
            assert(has_json_file(all));
            let i = choose|i: int| 0 <= i < all.len() && json_file(#[trigger] all[i]);
            assert(all.contains(all[i]));
            law_listed_are_the_json_files(voice_list(all), all, all[i]);
        }
    }
}

/// Any other answer than a good one ends the voice work, and a good one never
/// does: the folder was made, the list holds a file whose name ends with
/// `.json`, a file is JSON, an old file is gone, a file was written. Whether the
/// date came does not matter.
pub proof fn law_voice_work_goes_on_just_for_good_answers(
    answers: Seq<SyncAnswer>,
    answer: SyncAnswer,
)
    requires
        sync_run(answers) is Some,
    ensures
        ({
            let n = answers.len();
            let total = files_listed(answers).len();
            let more = sync_run(answers.push(answer)) is Some;
            &&& n == 0 ==> (more <==> answer matches SyncAnswer::Folder(Ok(_)))
            &&& n == 1 ==> (more <==> answer is Date)
            &&& n == 2 ==> (more <==> (answer matches SyncAnswer::List(Reply::Received(entries))
                && exists|i: int|
                0 <= i < entries@.len() && (#[trigger] entries@[i]).item_type@ == "file"@
                    && ".json"@.is_suffix_of(entries@[i].name@)))
            &&& 3 <= n < 3 + total ==> (more <==> (answer matches SyncAnswer::File(
                Reply::Received(content),
            ) && json_error(content@) is None))
            &&& n >= 3 && 3 + total <= n < 6 + total ==> (more <==> answer matches SyncAnswer::Removed(
                Ok(_),
            ))
            &&& n >= 3 && 6 + total <= n < 6 + 2 * total ==> (more
                <==> answer matches SyncAnswer::Written(Ok(_)))
            &&& n >= 3 && n >= 6 + 2 * total ==> !more
        }),
{
    lemma_sync_stands(answers);
    let all = answers.push(answer);
    assert(all.drop_last() == answers);
    if answers.len() >= 3 {
        lemma_list_nonempty(answers);
    }
    if answers.len() == 2 {
        if let SyncAnswer::List(Reply::Received(entries)) = answer {
            let v = items(entries@);
            assert(v.len() == entries@.len());
            if has_json_file(v) {
                let i = choose|i: int| 0 <= i < v.len() && json_file(#[trigger] v[i]);
                assert(entries@[i].item_type@ == v[i].item_type);
            }
            if exists|i: int|
                0 <= i < entries@.len() && (#[trigger] entries@[i]).item_type@ == "file"@
                    && ".json"@.is_suffix_of(entries@[i].name@) {
                let i = choose|i: int|
                    0 <= i < entries@.len() && (#[trigger] entries@[i]).item_type@ == "file"@
                        && ".json"@.is_suffix_of(entries@[i].name@);
                assert(json_file(v[i]));
            }
        }
    }
}

/// The date that is recorded is the one that came back, and none where it could
/// not be had.
pub proof fn law_recorded_date_is_the_one_that_came(answers: Seq<SyncAnswer>)
    requires
        sync_run(answers) is Some,
        answers.len() >= 2,
    ensures
        answers[1] matches SyncAnswer::Date(Ok(Some(date))) ==> sync_run(answers)->Some_0.date == Some(
            date@,
        ),
        answers[1] matches SyncAnswer::Date(Ok(None)) ==> sync_run(answers)->Some_0.date is None,
        answers[1] matches SyncAnswer::Date(Err(_)) ==> sync_run(answers)->Some_0.date is None,
{
    lemma_sync_stands(answers);
}

/// Voice work that was told to stop asks for no list, no file and no writing,
/// and goes on with everything else; work that was not told to stop does not
/// care whether it could be told.
pub proof fn law_cancelled_voice_work_stops(answers: Seq<SyncAnswer>)
    requires
        sync_run(answers) is Some,
    ensures
        ({
            let state = sync_run(answers)->Some_0;
            let n = answers.len();
            let total = files_listed(answers).len();
            &&& state.asks(None) == state.asks(Some(false))
            &&& state.asks(Some(true)) == (if n == 2 || (n >= 3 && (n < 3 + total || 6 + total <= n
                < 6 + 2 * total)) {
                Err(ErrorView::Other("Conversion cancelled by user"@))
            } else {
                state.asks(None)
            })
        }),
{
    lemma_sync_stands(answers);
    if answers.len() >= 3 {
        lemma_list_nonempty(answers);
    }
}

/// Why the voice work ends is told as it came: why the folder could not be made,
/// what is wrong with the list or with a file, and what could not be removed or
/// written. Nothing but a written file is told otherwise, and it by its name.
pub proof fn law_voice_work_tells_why_it_ends(
    state: SyncView,
    error: String,
    reply: Reply<Vec<RepoContentItem>>,
    file: Reply<Vec<u8>>,
)
    ensures
        state.stage is Folder ==> state.after(SyncAnswer::Folder(Err(error))) == Err::<
            SyncView,
            ErrorView,
        >(ErrorView::Other("Failed to create LLC_zh-Hant directory: "@ + error@)),
        state.stage is List ==> (state.after(SyncAnswer::List(reply)) is Err <==> list_outcome(
            reply,
        ) is Err) && (list_outcome(reply) matches Err(e) ==> state.after(SyncAnswer::List(reply))
            == Err::<SyncView, ErrorView>(e)),
        state.stage matches SyncStageView::Download(download) ==> (download.received(
            file,
        ) matches Err(e) ==> state.after(SyncAnswer::File(file)) == Err::<SyncView, ErrorView>(e)),
        state.stage matches SyncStageView::Cleanup(cleanup) ==> (cleanup.removed(
            Err(error),
        ) matches Err(e) ==> state.after(SyncAnswer::Removed(Err(error))) == Err::<
            SyncView,
            ErrorView,
        >(e)),
        state.stage matches SyncStageView::Install(install) ==> (install.written(
            Err(error),
        ) matches Err(e) ==> state.after(SyncAnswer::Written(Err(error))) == Err::<
            SyncView,
            ErrorView,
        >(e)),
        state.stage matches SyncStageView::Install(install) ==> state.tells() == Some(
            install.installed(),
        ),
        !(state.stage is Install) ==> state.tells() is None,
{
}

/// What is said of the characters and bytes of what is to be done is said of all of
/// them.
pub proof fn law_asked_is_seen_whole(url: String, update: ProgressUpdate, file: &VoiceFile)
    ensures
        (SyncAsk::Get { url, update })@ == (AskView::Get { url: url@, update: update@ }),
        SyncAsk::Remove(url)@ == AskView::Remove(url@),
        SyncAsk::Write(file)@ == AskView::Write(file@),
        SyncAsk::MakeFolder@ == AskView::MakeFolder,
        SyncAsk::AskDate@ == AskView::AskDate,
        SyncAsk::AskList@ == AskView::AskList,
        SyncAsk::Finished@ == AskView::Finished,
{
}

} // verus!
