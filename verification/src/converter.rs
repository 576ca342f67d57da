//! The whole run: what is done in which order, what is told of it, and when it
//! stops.
use vstd::prelude::*;

use crate::archive::{extraction_done, extraction_update};
use crate::config::{opt_str, should_update, update_version_info, update_voice_update_date, Config, ConfigView, TranslationConfig};
use crate::convert::{conversion_begins, conversion_done, ConversionView};
use crate::error::{AppError, ErrorView};
use crate::numbers::decimal;
use crate::paths::HostPath;
use crate::progress::{law_progress_grows, law_progress_stays_in_its_share, lemma_not_over_by_point, note, Progress, ProgressUpdate, UpdateView};
use crate::release::{check_cancelled, download_update};
use crate::text::{concat3, opt_text};
use crate::voice::{FileView, ItemView, VoiceDownloadView, VoiceInstallView};

verus! {

/// The steps of a run.
#[derive(Debug, Clone, Copy, PartialEq, Eq, Structural)]
pub enum Stage {
    /// Look for the game.
    Locate,
    /// Ask for the latest release.
    Release,
    /// Download it.
    Download,
    /// Extract the texts.
    Extract,
    /// Convert the texts.
    Convert,
    /// Record the release as installed.
    Record,
    /// Write the fonts.
    Fonts,
    /// Write the game's settings.
    GameConfig,
    /// See to it that the translation's settings exist.
    TranslationConfig,
    /// Remove the temporary folder.
    Clean,
    /// Get and install the voice files.
    Voice,
    /// Record the date of the voice files.
    RecordVoice,
    /// Nothing is left to do.
    Finished,
}

/// What a step that succeeded brought.
#[derive(Debug)]
pub enum StepDone {
    /// Whether the game was found.
    Located { found: bool },
    /// The latest release, and the settings as they are then.
    Latest { tag: String, date: Option<String>, config: Config },
    /// The date of the voice files, if it is known.
    Voice { date: Option<String> },
    /// Nothing that matters later.
    Done,
}

/// A [`StepDone`] by its characters.
#[verifier::ext_equal]
pub enum DoneView {
    Located { found: bool },
    Latest { tag: Seq<char>, date: Option<Seq<char>>, config: ConfigView },
    Voice { date: Option<Seq<char>> },
    Done,
}

impl View for StepDone {
    type V = DoneView;

    open spec fn view(&self) -> DoneView {
        match *self {
            StepDone::Located { found } => DoneView::Located { found },
            StepDone::Latest { tag, date, config } => DoneView::Latest {
                tag: tag@,
                date: opt_text(date),
                config: config@,
            },
            StepDone::Voice { date } => DoneView::Voice { date: opt_text(date) },
            StepDone::Done => DoneView::Done,
        }
    }
}

impl DoneView {
    /// This is what a step brings.
    pub open spec fn fits(self, stage: Stage) -> bool {
        match stage {
            Stage::Locate => self is Located,
            Stage::Release => self is Latest,
            Stage::Voice => self is Voice,
            Stage::Finished => false,
            _ => self is Done,
        }
    }
}

/// A run.
#[derive(Debug)]
pub struct Converter {
    stage: Stage,
    tag: String,
    date: Option<String>,
    converted: bool,
    voice_date: Option<String>,
}

/// A [`Converter`] by its characters: the step it is at, the tag and the date
/// of the latest release, whether its texts were converted in this run, and
/// the date of the voice files.
#[verifier::ext_equal]
pub struct ConverterView {
    pub stage: Stage,
    pub tag: Seq<char>,
    pub date: Option<Seq<char>>,
    pub converted: bool,
    pub voice_date: Option<Seq<char>>,
}

impl View for Converter {
    type V = ConverterView;

    closed spec fn view(&self) -> ConverterView {
        ConverterView {
            stage: self.stage,
            tag: self.tag@,
            date: opt_text(self.date),
            converted: self.converted,
            voice_date: opt_text(self.voice_date),
        }
    }
}

/// The step that comes behind a step, where all of them are taken.
pub open spec fn following(stage: Stage) -> Stage {
    match stage {
        Stage::Locate => Stage::Release,
        Stage::Release => Stage::Download,
        Stage::Download => Stage::Extract,
        Stage::Extract => Stage::Convert,
        Stage::Convert => Stage::Record,
        Stage::Record => Stage::Fonts,
        Stage::Fonts => Stage::GameConfig,
        Stage::GameConfig => Stage::TranslationConfig,
        Stage::TranslationConfig => Stage::Clean,
        Stage::Clean => Stage::Voice,
        Stage::Voice => Stage::RecordVoice,
        Stage::RecordVoice => Stage::Finished,
        Stage::Finished => Stage::Finished,
    }
}

impl ConverterView {
    /// A run that has not done anything.
    pub open spec fn begin() -> ConverterView {
        ConverterView {
            stage: Stage::Locate,
            tag: Seq::empty(),
            date: None,
            converted: false,
            voice_date: None,
        }
    }

    /// The run behind a step that succeeded. A release that is installed is
    /// recorded again, and neither downloaded nor converted.
    pub open spec fn next(self, done: DoneView) -> ConverterView {
        match done {
            DoneView::Latest { tag, date, config } => ConverterView {
                stage: if config.needs(tag) {
                    Stage::Download
                } else {
                    Stage::Record
                },
                tag,
                date,
                ..self
            },
            DoneView::Voice { date } => ConverterView {
                stage: following(self.stage),
                voice_date: date,
                ..self
            },
            _ => ConverterView {
                stage: following(self.stage),
                converted: self.converted || self.stage == Stage::Convert,
                ..self
            },
        }
    }

    /// What is told when a step begins, if anything is.
    pub open spec fn told_before(self) -> Option<UpdateView> {
        match self.stage {
            Stage::Locate => Some(
                UpdateView::note(Progress::at(20), "Looking for game directory..."@),
            ),
            Stage::Release => Some(
                UpdateView::note(Progress::at(50), "Connecting to GitHub API..."@),
            ),
            Stage::Extract => Some(UpdateView::note(Progress::at(450), "Extracting files..."@)),
            Stage::Fonts => Some(UpdateView::note(Progress::at(920), "Copying font files..."@)),
            Stage::GameConfig => Some(
                UpdateView::note(Progress::at(960), "Creating config file..."@),
            ),
            Stage::TranslationConfig => Some(
                UpdateView::note(Progress::at(970), "Updating config file..."@),
            ),
            Stage::Clean => Some(
                UpdateView::note(Progress::at(980), "Cleaning temporary files..."@),
            ),
            Stage::Voice => Some(
                UpdateView::note(Progress::at(990), "Syncing voice files from GitHub..."@),
            ),
            _ => None,
        }
    }

    /// What is told when a step has succeeded, if anything is.
    pub open spec fn told_after(self, done: DoneView) -> Option<UpdateView> {
        match self.stage {
            Stage::Locate => Some(
                UpdateView::note(
                    Progress::at(30),
                    if done == (DoneView::Located { found: true }) {
                        "Game directory found"@
                    } else {
                        "Game directory not found, using default location"@
                    },
                ),
            ),
            Stage::Record if !self.converted => Some(
                UpdateView::note(Progress::at(900), "Localization package already up to date"@),
            ),
            Stage::Fonts => Some(UpdateView::note(Progress::at(950), "Font file copy complete!"@)),
            Stage::RecordVoice => Some(
                UpdateView::note(Progress::at(1000), "Conversion complete!"@),
            ),
            _ => None,
        }
    }

    /// A run that was told to stop stops when this step begins.
    pub open spec fn heeds_cancel(self) -> bool {
        match self.stage {
            Stage::Locate => true,
            Stage::Release => true,
            Stage::Download => true,
            Stage::Extract => true,
            Stage::Fonts => true,
            Stage::GameConfig => true,
            Stage::Voice => true,
            _ => false,
        }
    }

    /// What is told when this step begins is told even where the run then
    /// stops.
    pub open spec fn tells_first(self) -> bool {
        self.stage == Stage::GameConfig || self.stage == Stage::Voice
    }
}

/// An optional message by its characters.
pub open spec fn opt_update(o: Option<ProgressUpdate>) -> Option<UpdateView> {
    match o {
        Some(update) => Some(update@),
        None => None,
    }
}

/// The beginning of a step: what is told, and the error that it stops with
/// where it does.
#[derive(Debug)]
pub struct Begun {
    pub told: Option<ProgressUpdate>,
    pub stopped: Option<AppError>,
}

impl Converter {
    /// A run that has not done anything.
    pub fn run() -> (r: Converter)
        ensures
            r@ == ConverterView::begin(),
    {
        Converter {
            stage: Stage::Locate,
            tag: String::new(),
            date: None,
            converted: false,
            voice_date: None,
        }
    }

    /// The step that the run is at.
    pub fn stage(&self) -> (r: Stage)
        ensures
            r == self@.stage,
    {
        self.stage
    }

    /// What is told when a step begins.
    fn before(&self) -> (r: Option<ProgressUpdate>)
        ensures
            opt_update(r) == self@.told_before(),
            r matches Some(update) ==> update.progress.wf(),
    {
        match self.stage {
            Stage::Locate => Some(note(20, "Looking for game directory...")),
            Stage::Release => Some(note(50, "Connecting to GitHub API...")),
            Stage::Extract => Some(note(450, "Extracting files...")),
            Stage::Fonts => Some(note(920, "Copying font files...")),
            Stage::GameConfig => Some(note(960, "Creating config file...")),
            Stage::TranslationConfig => Some(note(970, "Updating config file...")),
            Stage::Clean => Some(note(980, "Cleaning temporary files...")),
            Stage::Voice => Some(note(990, "Syncing voice files from GitHub...")),
            _ => None,
        }
    }

    /// Begins the step that the run is at.
    pub fn begin(&self, cancel_flag: Option<bool>) -> (r: Begun)
        ensures
            r.told matches Some(update) ==> update.progress.wf(),
            if cancel_flag == Some(true) && self@.heeds_cancel() {
                &&& r.stopped matches Some(e) && e@ == ErrorView::Other(
                    "Conversion cancelled by user"@,
                )
                &&& opt_update(r.told) == (if self@.tells_first() {
                    self@.told_before()
                } else {
                    None
                })
            } else {
                &&& r.stopped is None
                &&& opt_update(r.told) == self@.told_before()
            },
    {
        let told = self.before();
        let (heeds, first) = match self.stage {
            Stage::Locate => (true, false),
            Stage::Release => (true, false),
            Stage::Download => (true, false),
            Stage::Extract => (true, false),
            Stage::Fonts => (true, false),
            Stage::GameConfig => (true, true),
            Stage::Voice => (true, true),
            _ => (false, false),
        };
        if heeds {
            if let Err(e) = check_cancelled(cancel_flag) {
                return Begun {
                    told: if first {
                        told
                    } else {
                        None
                    },
                    stopped: Some(e),
                };
            }
        }
        Begun { told, stopped: None }
    }

    /// Goes on from a step that succeeded; what is told of it.
    pub fn advance(&mut self, done: StepDone) -> (r: Option<ProgressUpdate>)
        requires
            done@.fits(old(self)@.stage),
        ensures
            final(self)@ == old(self)@.next(done@),
            opt_update(r) == old(self)@.told_after(done@),
            r matches Some(update) ==> update.progress.wf(),
    {
        let stage = self.stage;
        let told = match stage {
            Stage::Locate => match done {
                StepDone::Located { found: true } => Some(note(30, "Game directory found")),
                _ => Some(note(30, "Game directory not found, using default location")),
            },
            Stage::Record => if self.converted {
                None
            } else {
                Some(note(900, "Localization package already up to date"))
            },
            Stage::Fonts => Some(note(950, "Font file copy complete!")),
            Stage::RecordVoice => Some(note(1000, "Conversion complete!")),
            _ => None,
        };
        match done {
            StepDone::Latest { tag, date, config } => {
                self.stage = if should_update(&config, tag.as_str()) {
                    Stage::Download
                } else {
                    Stage::Record
                };
                self.tag = tag;
                self.date = date;
            },
            StepDone::Voice { date } => {
                self.stage = Stage::RecordVoice;
                self.voice_date = date;
            },
            _ => {
                self.stage = match stage {
                    Stage::Locate => Stage::Release,
                    Stage::Release => Stage::Download,
                    Stage::Download => Stage::Extract,
                    Stage::Extract => Stage::Convert,
                    Stage::Convert => {
                        self.converted = true;
                        Stage::Record
                    },
                    Stage::Record => Stage::Fonts,
                    Stage::Fonts => Stage::GameConfig,
                    Stage::GameConfig => Stage::TranslationConfig,
                    Stage::TranslationConfig => Stage::Clean,
                    Stage::Clean => Stage::Voice,
                    Stage::Voice => Stage::RecordVoice,
                    Stage::RecordVoice => Stage::Finished,
                    Stage::Finished => Stage::Finished,
                };
            },
        }
        told
    }

    /// The settings with what the step records: the release, or the date of
    /// the voice files.
    pub fn record(&self, config: Config) -> (r: Config)
        requires
            self@.stage == Stage::Record || self@.stage == Stage::RecordVoice,
        ensures
            r@ == (if self@.stage == Stage::Record {
                config@.with_version(self@.tag, self@.date)
            } else {
                config@.with_voice_date(self@.voice_date)
            }),
    {
        match self.stage {
            Stage::Record => {
                let date = borrowed(&self.date);
                update_version_info(config, self.tag.as_str(), date)
            },
            _ => {
                let date = borrowed(&self.voice_date);
                update_voice_update_date(config, date)
            },
        }
    }
}

/// An optional string as an optional text.
fn borrowed(o: &Option<String>) -> (r: Option<&str>)
    ensures
        opt_str(r) == opt_text(*o),
{
    match o {
        Some(s) => Some(s.as_str()),
        None => None,
    }
}

// ---------------------------------------------------------------------------
// What a run comes to
// ---------------------------------------------------------------------------

/// The run behind steps that succeeded; nothing where they are not the steps
/// of a run.
pub open spec fn run_of(events: Seq<DoneView>) -> Option<ConverterView>
    decreases events.len(),
{
    if events.len() == 0 {
        Some(ConverterView::begin())
    } else {
        match run_of(events.drop_last()) {
            Some(state) if events.last().fits(state.stage) => Some(state.next(events.last())),
            _ => None,
        }
    }
}

/// The steps of a run, in order; `update` says whether the latest release is
/// other than the installed one.
pub open spec fn steps_of_run(update: bool) -> Seq<Stage> {
    let work = if update {
        seq![Stage::Download, Stage::Extract, Stage::Convert]
    } else {
        seq![]
    };
    seq![Stage::Locate, Stage::Release] + work + seq![
        Stage::Record,
        Stage::Fonts,
        Stage::GameConfig,
        Stage::TranslationConfig,
        Stage::Clean,
        Stage::Voice,
        Stage::RecordVoice,
        Stage::Finished,
    ]
}

/// A run takes its steps in their order, each once, and knows the latest
/// release by its tag and date. The texts are downloaded, extracted and
/// converted just if the latest release is other than the installed one, and
/// before it is recorded.
pub proof fn law_run_takes_its_steps_in_order(events: Seq<DoneView>)
    requires
        run_of(events) is Some,
        events.len() >= 2,
    ensures
        events[1] is Latest,
        ({
            let tag = events[1]->tag;
            let date = events[1]->Latest_date;
            let update = events[1]->config.needs(tag);
            let state = run_of(events)->Some_0;
            &&& events.len() < steps_of_run(update).len()
            &&& state.stage == steps_of_run(update)[events.len() as int]
            &&& state.tag == tag
            &&& state.date == date
            &&& state.converted <==> (update && events.len() >= 5)
        }),
    decreases events.len(),
{
    let front = events.drop_last();
    if events.len() == 2 {
        assert(front.drop_last() == Seq::<DoneView>::empty());
        reveal_with_fuel(run_of, 3);
    } else {
        law_run_takes_its_steps_in_order(front);
        assert(front[1] == events[1]);
    }
}

/// The work that is left: no run goes on for ever.
pub open spec fn steps_left(stage: Stage) -> nat {
    match stage {
        Stage::Locate => 12,
        Stage::Release => 11,
        Stage::Download => 10,
        Stage::Extract => 9,
        Stage::Convert => 8,
        Stage::Record => 7,
        Stage::Fonts => 6,
        Stage::GameConfig => 5,
        Stage::TranslationConfig => 4,
        Stage::Clean => 3,
        Stage::Voice => 2,
        Stage::RecordVoice => 1,
        Stage::Finished => 0,
    }
}

/// Every step leaves less to do, and a run is finished just if nothing is left
/// to do.
pub proof fn law_run_ends(state: ConverterView, done: DoneView)
    requires
        done.fits(state.stage),
    ensures
        steps_left(state.next(done).stage) < steps_left(state.stage),
        state.stage == Stage::Finished <==> steps_left(state.stage) == 0,
{
}

/// A release is recorded only once its texts were converted in this run, or
/// where it is installed.
pub proof fn law_only_installed_releases_are_recorded(state: ConverterView, done: DoneView)
    requires
        done.fits(state.stage),
        state.next(done).stage == Stage::Record,
    ensures
        ({
            ||| state.stage == Stage::Convert && state.next(done).converted
            ||| done matches DoneView::Latest { tag, date, config } && config.installed_tag() == Some(
                tag,
            )
        }),
{
}

/// After a run, a run that finds the same latest release downloads nothing.
pub proof fn law_second_run_downloads_nothing(
    config: ConfigView,
    tag: Seq<char>,
    date: Option<Seq<char>>,
    voice_date: Option<Seq<char>>,
    later: ConverterView,
    later_date: Option<Seq<char>>,
)
    ensures
        later.next(
            DoneView::Latest {
                tag,
                date: later_date,
                config: config.with_version(tag, date).with_voice_date(voice_date),
            },
        ).stage == Stage::Record,
{
}

// ---------------------------------------------------------------------------
// What a run tells
// ---------------------------------------------------------------------------

/// What a step does between its beginning and its end, as far as it is told.
#[verifier::ext_equal]
pub enum Work {
    /// The latest release was found.
    Release { tag: Seq<char> },
    /// A download: how much had come each time, and how much was announced.
    Download { sizes: Seq<nat>, total_size: u64 },
    /// A walk through an archive with so many entries, of which so many were
    /// written.
    Extract { written: nat, total: nat },
    /// The conversion of files, with the names that are shown.
    Convert { paths: Seq<Seq<char>>, names: Seq<Seq<char>> },
    /// The download and installation of voice files.
    Voice { items: Seq<ItemView>, files: Seq<FileView> },
    /// Nothing that is told.
    Nothing,
}

impl Work {
    /// This is what a step does. What has come of a download only grows, and
    /// is no more than was announced, where anything was.
    pub open spec fn of(self, stage: Stage) -> bool {
        match self {
            Work::Release { tag } => stage == Stage::Release,
            Work::Download { sizes, total_size } => {
                &&& stage == Stage::Download
                &&& forall|i: int| 0 <= i < sizes.len() ==> #[trigger] sizes[i] <= u64::MAX
                &&& forall|i: int|
                    0 <= i < sizes.len() && total_size > 0 ==> #[trigger] sizes[i] <= total_size
                &&& forall|i: int, j: int|
                    0 <= i <= j < sizes.len() ==> #[trigger] sizes[i] <= #[trigger] sizes[j]
            },
            Work::Extract { written, total } => stage == Stage::Extract && written <= total <= u64::MAX,
            Work::Convert { paths, names } => {
                &&& stage == Stage::Convert
                &&& names.len() == paths.len() <= u64::MAX
            },
            Work::Voice { items, files } => {
                &&& stage == Stage::Voice
                &&& files.len() == items.len() <= u64::MAX
            },
            Work::Nothing => match stage {
                Stage::Release => false,
                Stage::Download => false,
                Stage::Extract => false,
                Stage::Convert => false,
                Stage::Voice => false,
                _ => true,
            },
        }
    }

    /// What is told of it.
    pub open spec fn messages(self) -> Seq<UpdateView> {
        match self {
            Work::Release { tag } => seq![
                UpdateView::note(Progress::at(100), "Found latest version: "@ + tag),
            ],
            Work::Download { sizes, total_size } => {
                seq![UpdateView::note(Progress::at(150), "Downloading update data..."@)]
                    + Seq::new(sizes.len(), |i: int| download_update(sizes[i], total_size))
                    + seq![UpdateView::note(Progress::at(400), "Download completed"@)]
            },
            Work::Extract { written, total } => {
                Seq::new(written / 100, |i: int| extraction_update((100 * (i + 1)) as nat, total))
                    + seq![extraction_done(written)]
            },
            Work::Convert { paths, names } => {
                seq![conversion_begins(paths.len())] + Seq::new(
                    paths.len(),
                    |i: int|
                        ConversionView { files: paths, next: i as nat, errors: 0 }.converting(names[i]),
                ) + seq![conversion_done(paths.len())]
            },
            Work::Voice { items, files } => {
                Seq::new(
                    items.len(),
                    |i: int| VoiceDownloadView { items, files: files.take(i) }.downloading(),
                ) + Seq::new(
                    files.len(),
                    |i: int| VoiceInstallView { files, next: i as nat }.installed(),
                )
            },
            Work::Nothing => Seq::empty(),
        }
    }
}

/// A message, if there is one.
pub open spec fn if_told(o: Option<UpdateView>) -> Seq<UpdateView> {
    match o {
        Some(update) => seq![update],
        None => Seq::empty(),
    }
}

/// What a step tells until it has succeeded.
pub open spec fn step_tells(state: ConverterView, work: Work, done: DoneView) -> Seq<UpdateView> {
    if_told(state.told_before()) + work.messages() + if_told(state.told_after(done))
}

/// The works are those of the steps of a run.
pub open spec fn works_fit(events: Seq<DoneView>, works: Seq<Work>) -> bool
    decreases events.len(),
{
    &&& works.len() == events.len()
    &&& events.len() > 0 ==> {
        &&& works_fit(events.drop_last(), works.drop_last())
        &&& run_of(events.drop_last()) matches Some(state) ==> works.last().of(state.stage)
    }
}

/// What a run tells in the steps that succeeded.
pub open spec fn run_tells(events: Seq<DoneView>, works: Seq<Work>) -> Seq<UpdateView>
    decreases events.len(),
{
    if events.len() == 0 {
        Seq::empty()
    } else {
        let front = run_tells(events.drop_last(), works.drop_last());
        match run_of(events.drop_last()) {
            Some(state) => front + step_tells(state, works.last(), events.last()),
            None => front,
        }
    }
}

/// The progress of the messages never falls, and stays between two points.
pub open spec fn climbs(m: Seq<UpdateView>, low: int, high: int) -> bool {
    &&& forall|i: int|
        0 <= i < m.len() ==> {
            let p = (#[trigger] m[i]).progress;
            p.wf() && p.has_reached(low) && p.within(high)
        }
    &&& forall|i: int, j: int|
        0 <= i <= j < m.len() ==> (#[trigger] m[i]).progress.not_over((#[trigger] m[j]).progress)
}

/// How far a run is at most, in tenths of a percent, before a step.
pub open spec fn told_by(stage: Stage) -> int {
    match stage {
        Stage::Locate => 0,
        Stage::Release => 30,
        Stage::Download => 100,
        Stage::Extract => 400,
        Stage::Convert => 550,
        Stage::Record => 900,
        Stage::Fonts => 900,
        Stage::GameConfig => 950,
        Stage::TranslationConfig => 960,
        Stage::Clean => 970,
        Stage::Voice => 980,
        Stage::RecordVoice => 999,
        Stage::Finished => 1000,
    }
}

proof fn lemma_climbs_empty(low: int, high: int)
    ensures
        climbs(Seq::empty(), low, high),
{
}

proof fn lemma_climbs_wider(m: Seq<UpdateView>, low: int, high: int, lower: int, higher: int)
    requires
        climbs(m, low, high),
        lower <= low,
        high <= higher,
    ensures
        climbs(m, lower, higher),
{
    assert forall|i: int| 0 <= i < m.len() implies {
        let p = (#[trigger] m[i]).progress;
        p.wf() && p.has_reached(lower) && p.within(higher)
    } by {
        let t = m[i].progress.total as int;
        assert(lower * t <= low * t && high * t <= higher * t) by (nonlinear_arith)
            requires
                t >= 0,
                lower <= low,
                high <= higher,
        ;
    }
}

proof fn lemma_climbs_on(a: Seq<UpdateView>, b: Seq<UpdateView>, low: int, mid: int, high: int)
    requires
        climbs(a, low, mid),
        climbs(b, mid, high),
        low <= mid <= high,
    ensures
        climbs(a + b, low, high),
{
    lemma_climbs_wider(a, low, mid, low, high);
    lemma_climbs_wider(b, mid, high, low, high);
    let m = a + b;
    assert forall|i: int| 0 <= i < m.len() implies {
        let p = (#[trigger] m[i]).progress;
        p.wf() && p.has_reached(low) && p.within(high)
    } by {
        if i < a.len() {
            assert(m[i] == a[i]);
        } else {
            assert(m[i] == b[i - a.len()]);
        }
    }
    assert forall|i: int, j: int| 0 <= i <= j < m.len() implies (
    #[trigger] m[i]).progress.not_over((#[trigger] m[j]).progress) by {
        if j < a.len() {
            assert(m[i] == a[i] && m[j] == a[j]);
        } else if i < a.len() {
            assert(m[i] == a[i] && m[j] == b[j - a.len()]);
            assert(climbs(a, low, mid));
            assert(climbs(b, mid, high));
            lemma_not_over_by_point(m[i].progress, m[j].progress, mid);
        } else {
            assert(m[i] == b[i - a.len()] && m[j] == b[j - a.len()]);
        }
    }
}

proof fn lemma_climbs_prefix(m: Seq<UpdateView>, n: int, low: int, high: int)
    requires
        climbs(m, low, high),
        0 <= n <= m.len(),
    ensures
        climbs(m.take(n), low, high),
{
    let front = m.take(n);
    assert forall|i: int| 0 <= i < front.len() implies {
        let p = (#[trigger] front[i]).progress;
        p.wf() && p.has_reached(low) && p.within(high)
    } by {
        assert(front[i] == m[i]);
    }
    assert forall|i: int, j: int| 0 <= i <= j < front.len() implies (
    #[trigger] front[i]).progress.not_over((#[trigger] front[j]).progress) by {
        assert(front[i] == m[i] && front[j] == m[j]);
    }
}

/// One message at a fixed point.
proof fn lemma_climbs_one(update: UpdateView, tenths: u32)
    requires
        update.progress == Progress::at(tenths),
    ensures
        climbs(seq![update], tenths as int, tenths as int),
{
}

/// Messages about the parts of one whole, of which ever more is done.
proof fn lemma_climbs_share(m: Seq<UpdateView>, base: u32, span: u32, total: u64)
    requires
        total > 0 || m.len() == 0,
        forall|i: int|
            0 <= i < m.len() ==> {
                let p = (#[trigger] m[i]).progress;
                p.base_tenths == base && p.span_tenths == span && p.total == total && p.done
                    <= total
            },
        forall|i: int, j: int|
            0 <= i <= j < m.len() ==> (#[trigger] m[i]).progress.done <= (
            #[trigger] m[j]).progress.done,
    ensures
        climbs(m, base as int, base + span),
{
    assert forall|i: int| 0 <= i < m.len() implies {
        let p = (#[trigger] m[i]).progress;
        p.wf() && p.has_reached(base as int) && p.within(base + span)
    } by {
        law_progress_stays_in_its_share(m[i].progress);
    }
    assert forall|i: int, j: int| 0 <= i <= j < m.len() implies (
    #[trigger] m[i]).progress.not_over((#[trigger] m[j]).progress) by {
        law_progress_grows(m[i].progress, m[j].progress.done);
        assert(m[j].progress == (Progress { done: m[j].progress.done, ..m[i].progress }));
    }
}

/// What is told of the work of a step, and the end of its share.
proof fn lemma_work_climbs(work: Work, stage: Stage)
    requires
        work.of(stage),
    ensures
        work is Release ==> climbs(work.messages(), 100, 100),
        work is Download ==> climbs(work.messages(), 150, 400),
        work is Extract ==> climbs(work.messages(), 450, 550),
        work is Convert ==> climbs(work.messages(), 600, 900),
        work is Voice ==> climbs(work.messages(), 991, 999),
        work is Nothing ==> work.messages().len() == 0,
{
    match work {
        Work::Release { tag } => {
            lemma_climbs_one(work.messages()[0], 100);
        },
        Work::Download { sizes, total_size } => {
            let first = UpdateView::note(Progress::at(150), "Downloading update data..."@);
            let last = UpdateView::note(Progress::at(400), "Download completed"@);
            let parts = Seq::new(sizes.len(), |i: int| download_update(sizes[i], total_size));
            let total = if total_size > 0 {
                total_size
            } else {
                10_000_000
            };
            lemma_climbs_share(parts, 150, 250, total);
            lemma_climbs_one(first, 150);
            lemma_climbs_one(last, 400);
            lemma_climbs_on(seq![first], parts, 150, 150, 400);
            lemma_climbs_on(seq![first] + parts, seq![last], 150, 400, 400);
        },
        Work::Extract { written, total } => {
            let parts = Seq::new(
                written / 100,
                |i: int| extraction_update((100 * (i + 1)) as nat, total),
            );
            lemma_climbs_share(parts, 450, 100, total as u64);
            lemma_climbs_one(extraction_done(written), 550);
            lemma_climbs_on(parts, seq![extraction_done(written)], 450, 550, 550);
        },
        Work::Convert { paths, names } => {
            let first = conversion_begins(paths.len());
            let last = conversion_done(paths.len());
            let parts = Seq::new(
                paths.len(),
                |i: int| ConversionView { files: paths, next: i as nat, errors: 0 }.converting(names[i]),
            );
            lemma_climbs_share(parts, 600, 300, paths.len() as u64);
            lemma_climbs_one(first, 600);
            lemma_climbs_one(last, 900);
            lemma_climbs_on(seq![first], parts, 600, 600, 900);
            lemma_climbs_on(seq![first] + parts, seq![last], 600, 900, 900);
        },
        Work::Voice { items, files } => {
            let down = Seq::new(
                items.len(),
                |i: int| VoiceDownloadView { items, files: files.take(i) }.downloading(),
            );
            let up = Seq::new(
                files.len(),
                |i: int| VoiceInstallView { files, next: i as nat }.installed(),
            );
            lemma_climbs_share(down, 991, 4, items.len() as u64);
            lemma_climbs_share(up, 996, 3, files.len() as u64);
            lemma_climbs_wider(up, 996, 999, 995, 999);
            lemma_climbs_on(down, up, 991, 995, 999);
        },
        Work::Nothing => {},
    }
}

/// What a step tells stays between what was told before it and what is told by
/// the next step.
proof fn lemma_step_climbs(state: ConverterView, work: Work, done: DoneView)
    requires
        work.of(state.stage),
        done.fits(state.stage),
    ensures
        climbs(step_tells(state, work, done), told_by(state.stage), told_by(state.next(done).stage)),
        climbs(
            if_told(state.told_before()) + work.messages(),
            told_by(state.stage),
            told_by(state.next(done).stage),
        ),
        state.stage != Stage::RecordVoice ==> told_by(state.next(done).stage) <= 999,
{
    let low = told_by(state.stage);
    let high = told_by(state.next(done).stage);
    let before = if_told(state.told_before());
    let inner = work.messages();
    let after = if_told(state.told_after(done));
    lemma_work_climbs(work, state.stage);
    if let Some(update) = state.told_before() {
        lemma_climbs_one(update, update.progress.base_tenths);
    }
    if let Some(update) = state.told_after(done) {
        lemma_climbs_one(update, update.progress.base_tenths);
    }
    // The point that each message of the step is on one side of.
    let first = match state.stage {
        Stage::Locate => 20int,
        Stage::Release => 50,
        Stage::Download => 150,
        Stage::Extract => 450,
        Stage::Convert => 600,
        Stage::Record => 900,
        Stage::Fonts => 920,
        Stage::GameConfig => 960,
        Stage::TranslationConfig => 970,
        Stage::Clean => 980,
        Stage::Voice => 990,
        _ => 999,
    };
    let second = match state.stage {
        Stage::Release => 100int,
        Stage::Download => 400,
        Stage::Extract => 550,
        Stage::Convert => 900,
        Stage::Voice => 999,
        _ => first,
    };
    if state.told_before() is Some {
        lemma_climbs_wider(before, first, first, low, first);
    } else {
        lemma_climbs_empty(low, first);
        assert(before == Seq::<UpdateView>::empty());
    }
    if work is Nothing {
        lemma_climbs_empty(first, second);
        assert(inner == Seq::<UpdateView>::empty());
    } else if work is Release {
        lemma_climbs_wider(inner, 100, 100, first, second);
    } else if work is Voice {
        lemma_climbs_wider(inner, 991, 999, first, second);
    }
    lemma_climbs_on(before, inner, low, first, second);
    lemma_climbs_wider(before + inner, low, second, low, high);
    if let Some(update) = state.told_after(done) {
        let point = update.progress.base_tenths as int;
        lemma_climbs_wider(after, point, point, second, high);
    } else {
        lemma_climbs_empty(second, high);
        assert(after == Seq::<UpdateView>::empty());
    }
    lemma_climbs_on(before + inner, after, low, second, high);
}

proof fn lemma_run_climbs(events: Seq<DoneView>, works: Seq<Work>)
    requires
        run_of(events) is Some,
        works_fit(events, works),
    ensures
        climbs(run_tells(events, works), 0, told_by(run_of(events)->Some_0.stage)),
    decreases events.len(),
{
    if events.len() == 0 {
        lemma_climbs_empty(0, 0);
    } else {
        let state = run_of(events.drop_last())->Some_0;
        let front = run_tells(events.drop_last(), works.drop_last());
        lemma_run_climbs(events.drop_last(), works.drop_last());
        lemma_step_climbs(state, works.last(), events.last());
        lemma_climbs_on(
            front,
            step_tells(state, works.last(), events.last()),
            0,
            told_by(state.stage),
            told_by(state.next(events.last()).stage),
        );
    }
}

/// The progress that a run tells never falls, as far as the run gets, and is
/// below a hundred percent until the run is finished. `part` is what is told in
/// a step that did not come to its end.
pub proof fn law_progress_of_a_run_never_falls(
    events: Seq<DoneView>,
    works: Seq<Work>,
    work: Work,
    part: Seq<UpdateView>,
)
    requires
        run_of(events) is Some,
        works_fit(events, works),
        run_of(events)->Some_0.stage != Stage::Finished,
        work.of(run_of(events)->Some_0.stage),
        part.is_prefix_of(if_told(run_of(events)->Some_0.told_before()) + work.messages()),
    ensures
        climbs(run_tells(events, works) + part, 0, 999),
{
    let state = run_of(events)->Some_0;
    let config = ConfigView::fresh(None);
    let done = match state.stage {
        Stage::Locate => DoneView::Located { found: true },
        Stage::Release => DoneView::Latest { tag: Seq::empty(), date: None, config },
        Stage::Voice => DoneView::Voice { date: None },
        _ => DoneView::Done,
    };
    let low = told_by(state.stage);
    let high = told_by(state.next(done).stage);
    let all = if_told(state.told_before()) + work.messages();
    lemma_run_climbs(events, works);
    lemma_step_climbs(state, work, done);
    assert(part == all.take(part.len() as int));
    lemma_climbs_prefix(all, part.len() as int, low, high);
    if state.stage == Stage::RecordVoice {
        assert(part == Seq::<UpdateView>::empty());
        lemma_climbs_empty(low, 999);
        lemma_climbs_on(run_tells(events, works), part, 0, low, 999);
    } else {
        lemma_climbs_on(run_tells(events, works), part, 0, low, high);
        lemma_climbs_wider(run_tells(events, works) + part, 0, high, 0, 999);
    }
}

/// The progress that a run tells never falls, and a run that is finished tells
/// a hundred percent with its last message and not before.
pub proof fn law_finished_run_ends_at_a_hundred(events: Seq<DoneView>, works: Seq<Work>)
    requires
        run_of(events) is Some,
        works_fit(events, works),
        run_of(events)->Some_0.stage == Stage::Finished,
    ensures
        ({
            let told = run_tells(events, works);
            &&& told.len() > 0
            &&& climbs(told, 0, 1000)
            &&& climbs(told.drop_last(), 0, 999)
            &&& told.last() == UpdateView::note(Progress::at(1000), "Conversion complete!"@)
        }),
{
    let front = events.drop_last();
    let state = run_of(front)->Some_0;
    lemma_run_climbs(events, works);
    lemma_run_climbs(front, works.drop_last());
    assert(state.stage == Stage::RecordVoice);
    let told = run_tells(events, works);
    let before = run_tells(front, works.drop_last());
    assert(works.last() is Nothing);
    assert(told == before.push(state.told_after(events.last())->Some_0));
    assert(told.drop_last() == before);
}

// ---------------------------------------------------------------------------
// The game's settings
// ---------------------------------------------------------------------------

/// The settings that make the game use the translation.
pub open spec fn game_config_text() -> Seq<char> {
    "{\n  \"lang\": \"LLC_zh-Hant\",\n  \"titleFont\": \"\",\n  \"contextFont\": \"\",\n  \"samplingPointSize\": 78,\n  \"padding\": 5\n}"@
}

/// The settings that make the game use the translation.
pub fn game_config_content() -> (r: String)
    ensures
        r@ == game_config_text(),
{
    "{\n  \"lang\": \"LLC_zh-Hant\",\n  \"titleFont\": \"\",\n  \"contextFont\": \"\",\n  \"samplingPointSize\": 78,\n  \"padding\": 5\n}".to_string()
}

/// The settings of a translation folder as JSON, one to a line, two spaces in:
/// for numbers that are not negative, and for texts in which nothing has to be
/// escaped.
pub open spec fn settings_text(config: TranslationConfig) -> Seq<char> {
    "{\n  \"lang\": \""@ + config.lang@ + "\",\n  \"titleFont\": \""@ + config.title_font@
        + "\",\n  \"contextFont\": \""@ + config.context_font@
        + "\",\n  \"samplingPointSize\": "@ + decimal(config.sampling_point_size as nat)
        + ",\n  \"padding\": "@ + decimal(config.padding as nat) + "\n}"@
}

/// The game is given the settings that a translation folder begins with, every
/// one of them, in this form.
pub proof fn law_game_config_holds_the_default_settings(config: TranslationConfig)
    requires
        config.is_default(),
    ensures
        game_config_text() == settings_text(config),
{
    reveal_strlit("{\n  \"lang\": \"LLC_zh-Hant\",\n  \"titleFont\": \"\",\n  \"contextFont\": \"\",\n  \"samplingPointSize\": 78,\n  \"padding\": 5\n}");
    reveal_strlit("LLC_zh-Hant");
    reveal_strlit("{\n  \"lang\": \"");
    reveal_strlit("\",\n  \"titleFont\": \"");
    reveal_strlit("\",\n  \"contextFont\": \"");
    reveal_strlit("\",\n  \"samplingPointSize\": ");
    reveal_strlit(",\n  \"padding\": ");
    reveal_strlit("\n}");
    reveal_with_fuel(decimal, 3);
    assert(game_config_text() =~= settings_text(config));
}

/// Where the game's settings are: in the folder that holds the output folder,
/// where there is one.
pub fn create_game_config(output_base: &str, lang_dir: Option<HostPath>) -> (r: Result<
    HostPath,
    AppError,
>)
    ensures
        match lang_dir {
            Some(dir) => r matches Ok(path) && path@ == dir@.join("config.json"@),
            None => r matches Err(e) && e@ == ErrorView::Other(
                "Failed to parse Lang folder path: "@ + output_base@,
            ),
        },
{
    match lang_dir {
        Some(dir) => Ok(dir.join("config.json")),
        None => Err(AppError::other("Failed to parse Lang folder path: ", output_base)),
    }
}

/// What comes of writing the game's settings to a path.
pub fn game_config_written(path: &str, written: Result<(), String>) -> (r: Result<(), AppError>)
    ensures
        match written {
            Ok(()) => r is Ok,
            Err(e) => r matches Err(err) && err@ == ErrorView::Other(
                "Failed to create config file "@ + path@ + ": "@ + e@,
            ),
        },
{
    match written {
        Ok(()) => Ok(()),
        Err(e) => {
            let mut message = concat3("Failed to create config file ", path, ": ");
            message.append(e.as_str());
            Err(AppError::Other(message))
        },
    }
}

/// Of the voice files a run knows the date that came with them, to the end of the
/// run, and none before they came.
pub proof fn law_run_knows_the_voice_date(events: Seq<DoneView>)
    requires
        run_of(events) is Some,
    ensures
        ({
            let state = run_of(events)->Some_0;
            let update = events[1]->config.needs(events[1]->tag);
            let at = if update {
                10int
            } else {
                7int
            };
            &&& events.len() < 2 || events.len() <= at ==> state.voice_date is None
            &&& events.len() >= 2 && events.len() > at ==> state.voice_date
                == events[at]->Voice_date
        }),
    decreases events.len(),
{
    if events.len() > 0 {
        let front = events.drop_last();
        law_run_knows_the_voice_date(front);
        if events.len() == 1 {
            reveal_with_fuel(run_of, 2);
        } else {
            law_run_takes_its_steps_in_order(events);
            if front.len() >= 2 {
                law_run_takes_its_steps_in_order(front);
                assert(front[1] == events[1]);
            } else {
                let first = front.drop_last();
                assert(first == Seq::<DoneView>::empty());
                reveal_with_fuel(run_of, 3);
            }
        }
    }
}

/// A run begins with looking for the game, and then asks for the release; each step
/// behind these follows as listed here.
pub proof fn law_steps_follow_one_another(state: ConverterView, config: ConfigView)
    ensures
        ConverterView::begin().stage == Stage::Locate,
        !ConverterView::begin().converted,
        forall|found: bool| #[trigger]
            (ConverterView { stage: Stage::Locate, ..state }).next(
                DoneView::Located { found },
            ).stage == Stage::Release,
        forall|tag: Seq<char>, date: Option<Seq<char>>|
            {
                let after = #[trigger] (ConverterView { stage: Stage::Release, ..state }).next(
                    DoneView::Latest { tag, date, config },
                );
                &&& config.needs(tag) ==> after.stage == Stage::Download
                &&& !config.needs(tag) ==> after.stage == Stage::Record
                &&& after.tag == tag
                &&& after.date == date
                &&& after.converted == state.converted
                &&& after.voice_date == state.voice_date
            },
        forall|date: Option<Seq<char>>|
            {
                let after = #[trigger] (ConverterView { stage: Stage::Voice, ..state }).next(
                    DoneView::Voice { date },
                );
                &&& after.stage == Stage::RecordVoice
                &&& after.voice_date == date
                &&& after.tag == state.tag
                &&& after.date == state.date
                &&& after.converted == state.converted
            },
{
}

/// What is told when each step begins: how far the run is then, and what it does.
pub proof fn law_steps_tell_what_they_do(state: ConverterView)
    ensures
        ({
            let told = state.told_before();
            &&& state.stage == Stage::Locate ==> told == Some(
                UpdateView::note(Progress::at(20), "Looking for game directory..."@),
            )
            &&& state.stage == Stage::Release ==> told == Some(
                UpdateView::note(Progress::at(50), "Connecting to GitHub API..."@),
            )
            &&& state.stage == Stage::Extract ==> told == Some(
                UpdateView::note(Progress::at(450), "Extracting files..."@),
            )
            &&& state.stage == Stage::Fonts ==> told == Some(
                UpdateView::note(Progress::at(920), "Copying font files..."@),
            )
            &&& state.stage == Stage::GameConfig ==> told == Some(
                UpdateView::note(Progress::at(960), "Creating config file..."@),
            )
            &&& state.stage == Stage::TranslationConfig ==> told == Some(
                UpdateView::note(Progress::at(970), "Updating config file..."@),
            )
            &&& state.stage == Stage::Clean ==> told == Some(
                UpdateView::note(Progress::at(980), "Cleaning temporary files..."@),
            )
            &&& state.stage == Stage::Voice ==> told == Some(
                UpdateView::note(Progress::at(990), "Syncing voice files from GitHub..."@),
            )
            &&& state.stage == Stage::Download || state.stage == Stage::Convert || state.stage
                == Stage::Record || state.stage == Stage::RecordVoice || state.stage
                == Stage::Finished ==> told is None
        }),
{
}

/// What is told when a step has succeeded: whether the game was found, that nothing
/// had to be installed, that the fonts were copied, and that the run is complete.
pub proof fn law_steps_tell_what_came_of_them(state: ConverterView, done: DoneView)
    ensures
        ({
            let told = state.told_after(done);
            &&& state.stage == Stage::Locate && done == (DoneView::Located { found: true })
                ==> told == Some(UpdateView::note(Progress::at(30), "Game directory found"@))
            &&& state.stage == Stage::Locate && done == (DoneView::Located { found: false })
                ==> told == Some(
                UpdateView::note(
                    Progress::at(30),
                    "Game directory not found, using default location"@,
                ),
            )
            &&& state.stage == Stage::Record && !state.converted ==> told == Some(
                UpdateView::note(Progress::at(900), "Localization package already up to date"@),
            )
            &&& state.stage == Stage::Record && state.converted ==> told is None
            &&& state.stage == Stage::Fonts ==> told == Some(
                UpdateView::note(Progress::at(950), "Font file copy complete!"@),
            )
            &&& state.stage == Stage::RecordVoice ==> told == Some(
                UpdateView::note(Progress::at(1000), "Conversion complete!"@),
            )
            &&& state.stage == Stage::Release || state.stage == Stage::Download || state.stage
                == Stage::Extract || state.stage == Stage::Convert || state.stage
                == Stage::GameConfig || state.stage == Stage::TranslationConfig || state.stage
                == Stage::Clean || state.stage == Stage::Voice || state.stage == Stage::Finished
                ==> told is None
        }),
{
}

/// A run that was told to stop does so before each of these steps, and before no
/// other: it neither leaves texts extracted and not converted, nor records what it
/// has not done. Before two of them it still tells what the step would do.
pub proof fn law_run_stops_before_these_steps(state: ConverterView)
    ensures
        state.heeds_cancel() <==> (state.stage == Stage::Locate || state.stage == Stage::Release
            || state.stage == Stage::Download || state.stage == Stage::Extract || state.stage
            == Stage::Fonts || state.stage == Stage::GameConfig || state.stage == Stage::Voice),
        state.tells_first() <==> (state.stage == Stage::GameConfig || state.stage == Stage::Voice),
{
}

/// What is said of the characters of what a step brought is said of all of it.
pub proof fn law_what_came_is_seen_whole(
    tag: String,
    date: Option<String>,
    config: Config,
    found: bool,
    update: ProgressUpdate,
)
    ensures
        (StepDone::Latest { tag, date, config })@ == (DoneView::Latest {
            tag: tag@,
            date: opt_text(date),
            config: config@,
        }),
        (StepDone::Located { found })@ == (DoneView::Located { found }),
        (StepDone::Voice { date })@ == (DoneView::Voice { date: opt_text(date) }),
        StepDone::Done@ == DoneView::Done,
        opt_update(Some(update)) == Some(update@),
        opt_update(None) is None,
{
}

} // verus!
