//! The state behind the screen: what phase the program is in, what it shows,
//! and how keys and the worker's messages change that.
use std::collections::VecDeque;

use vstd::prelude::*;

use crate::config::{Config, ConfigView};
use crate::error::{AppError, ErrorView};
use crate::progress::{fixed, law_progress_is_measured_in_tenths, lemma_reached_stays, Progress, ProgressUpdate, UpdateView};
use crate::steam_registry::{GamePathInfo, GamePathView};
use crate::text::{concat, contains, has_part, lower_text, opt_text, same_text, stands_at, to_ascii_lowercase};

verus! {

/// How many lines the log holds at most.
pub const MAX_LOG_LINES: usize = 250;

/// What the program is doing.
#[derive(Debug, Clone, Copy, PartialEq, Eq, Structural)]
pub enum Phase {
    Ready,
    Running,
    Success,
    Failed,
}

/// How much a line of the log matters.
#[derive(Debug, Clone, Copy, PartialEq, Eq, Structural)]
pub enum LogLevel {
    Info,
    Success,
    Warn,
    Error,
}

/// A line of the log.
#[derive(Debug)]
pub struct LogEntry {
    pub timestamp: String,
    pub level: LogLevel,
    pub message: String,
}

/// A [`LogEntry`] by its characters.
#[verifier::ext_equal]
pub struct LogView {
    pub timestamp: Seq<char>,
    pub level: LogLevel,
    pub message: Seq<char>,
}

impl View for LogEntry {
    type V = LogView;

    open spec fn view(&self) -> LogView {
        LogView { timestamp: self.timestamp@, level: self.level, message: self.message@ }
    }
}

/// The lines of the log by their characters.
pub open spec fn log_views(v: Seq<LogEntry>) -> Seq<LogView> {
    Seq::new(v.len(), |i: int| v[i]@)
}

/// What the worker says.
#[derive(Debug)]
pub enum WorkerEvent {
    /// How far it is.
    Progress(ProgressUpdate),
    /// That it is done, or the text of the error that it ended with.
    Finished(Result<(), String>),
}

/// A key.
#[derive(Debug, Clone, Copy, PartialEq, Eq, Structural)]
pub enum Key {
    Char(char),
    Esc,
    Other,
}

/// What happened to a key.
#[derive(Debug, Clone, Copy, PartialEq, Eq, Structural)]
pub enum KeyKind {
    Press,
    Repeat,
    Release,
}

/// What is to be done outside for a key.
#[derive(Debug, Clone, Copy, PartialEq, Eq, Structural)]
pub enum Action {
    /// Nothing.
    Nothing,
    /// Start a worker.
    StartWorker,
    /// Tell the worker to stop.
    StopWorker,
    /// Load the settings and look for the game again.
    Refresh,
}

/// The state of the program.
#[derive(Debug)]
pub struct App {
    pub phase: Phase,
    pub progress: Progress,
    pub message: String,
    pub error: Option<String>,
    pub current_file: Option<String>,
    pub total_files: Option<usize>,
    pub processed_files: Option<usize>,
    pub logs: VecDeque<LogEntry>,
    pub log_scroll: usize,
    /// There is a worker that can be told to stop.
    pub cancellable: bool,
    pub config: Option<Config>,
    pub game_info: GamePathInfo,
    pub should_quit: bool,
    pub last_logged_message: Option<String>,
}

/// The state of the program by its characters.
#[verifier::ext_equal]
pub struct AppView {
    pub phase: Phase,
    pub progress: Progress,
    pub message: Seq<char>,
    pub error: Option<Seq<char>>,
    pub current_file: Option<Seq<char>>,
    pub total_files: Option<usize>,
    pub processed_files: Option<usize>,
    pub logs: Seq<LogView>,
    pub log_scroll: usize,
    pub cancellable: bool,
    pub config: Option<ConfigView>,
    pub game_info: GamePathView,
    pub should_quit: bool,
    pub last_logged_message: Option<Seq<char>>,
}

/// Optional settings by their characters.
pub open spec fn opt_config(o: Option<Config>) -> Option<ConfigView> {
    match o {
        Some(config) => Some(config@),
        None => None,
    }
}

impl View for App {
    type V = AppView;

    open spec fn view(&self) -> AppView {
        AppView {
            phase: self.phase,
            progress: self.progress,
            message: self.message@,
            error: opt_text(self.error),
            current_file: opt_text(self.current_file),
            total_files: self.total_files,
            processed_files: self.processed_files,
            logs: log_views(self.logs@),
            log_scroll: self.log_scroll,
            cancellable: self.cancellable,
            config: opt_config(self.config),
            game_info: self.game_info@,
            should_quit: self.should_quit,
            last_logged_message: opt_text(self.last_logged_message),
        }
    }
}

/// The log with one more line. A full log loses its oldest line.
pub open spec fn log_with(logs: Seq<LogView>, entry: LogView) -> Seq<LogView> {
    if logs.len() >= MAX_LOG_LINES {
        logs.drop_first().push(entry)
    } else {
        logs.push(entry)
    }
}

/// Whether an error says that the work was cancelled.
pub open spec fn says_cancelled(error: Seq<char>) -> bool {
    has_part(lower_text(error), "cancel"@)
}

impl AppView {
    /// The log is not too long, a run that goes on can be cancelled, and the
    /// progress is no more than a hundred percent.
    pub open spec fn wf(self) -> bool {
        &&& self.logs.len() <= MAX_LOG_LINES
        &&& self.phase == Phase::Running ==> self.cancellable
        &&& self.progress.wf()
        &&& self.progress.within(1000)
    }

    /// The state with one more line in the log.
    pub open spec fn logged(self, now: Seq<char>, level: LogLevel, message: Seq<char>) -> AppView {
        AppView {
            logs: log_with(self.logs, LogView { timestamp: now, level, message }),
            ..self
        }
    }

    /// The state once the settings were loaded, or could not be.
    pub open spec fn with_config(
        self,
        now: Seq<char>,
        loaded: Result<ConfigView, ErrorView>,
    ) -> AppView {
        match loaded {
            Ok(config) => AppView { config: Some(config), ..self }.logged(
                now,
                LogLevel::Info,
                "設定檔已載入"@,
            ),
            Err(e) => AppView {
                config: None,
                error: Some(e.message()),
                phase: Phase::Failed,
                ..self
            }.logged(now, LogLevel::Error, "設定檔載入失敗: "@ + e.message()),
        }
    }

    /// The state with which the program starts.
    pub open spec fn start(
        now: Seq<char>,
        game_info: GamePathView,
        loaded: Result<ConfigView, ErrorView>,
    ) -> AppView {
        let blank = AppView {
            phase: Phase::Ready,
            progress: Progress::at(0),
            message: "按 S 開始轉換，按 Q 離開"@,
            error: None,
            current_file: None,
            total_files: None,
            processed_files: None,
            logs: Seq::empty(),
            log_scroll: 0,
            cancellable: false,
            config: None,
            game_info,
            should_quit: false,
            last_logged_message: None,
        };
        let found = if game_info.found {
            blank.with_config(now, loaded).logged(
                now,
                LogLevel::Success,
                "已偵測到 Limbus Company 安裝路徑"@,
            )
        } else {
            blank.with_config(now, loaded).logged(
                now,
                LogLevel::Warn,
                "找不到 Limbus Company 路徑，將使用預設輸出資料夾"@,
            )
        };
        found.logged(now, LogLevel::Info, "TUI 已就緒，可開始執行轉換"@)
    }

    /// The state once a run was asked for.
    pub open spec fn started(self, now: Seq<char>) -> AppView {
        if self.phase == Phase::Running {
            self.logged(now, LogLevel::Warn, "轉換已在執行中"@)
        } else {
            AppView {
                phase: Phase::Running,
                progress: Progress::at(0),
                message: "啟動轉換工作..."@,
                error: None,
                current_file: None,
                total_files: None,
                processed_files: None,
                cancellable: true,
                last_logged_message: None,
                ..self
            }.logged(now, LogLevel::Info, "開始執行轉換流程"@)
        }
    }

    /// The state once a run was asked to stop.
    pub open spec fn stopping(self, now: Seq<char>) -> AppView {
        if self.phase != Phase::Running {
            self.logged(now, LogLevel::Warn, "目前沒有進行中的轉換"@)
        } else if self.cancellable {
            AppView { message: "正在取消轉換..."@, ..self }.logged(
                now,
                LogLevel::Warn,
                "已送出取消請求，等待安全停止..."@,
            )
        } else {
            self
        }
    }

    /// The state once the worker told how far it is. The same message is
    /// logged only once in a row.
    pub open spec fn progressed(self, now: Seq<char>, update: UpdateView) -> AppView {
        let shown = AppView {
            progress: update.progress.clamped(),
            message: update.message,
            current_file: update.current_file,
            total_files: update.total_files,
            processed_files: update.processed_files,
            last_logged_message: Some(update.message),
            ..self
        };
        if self.last_logged_message == Some(update.message) {
            shown
        } else {
            shown.logged(now, LogLevel::Info, update.message)
        }
    }

    /// The state once the worker is done.
    pub open spec fn finished(self, now: Seq<char>, error: Option<Seq<char>>) -> AppView {
        let idle = AppView { cancellable: false, last_logged_message: None, ..self };
        match error {
            None => AppView {
                phase: Phase::Success,
                progress: Progress::at(1000),
                message: "轉換完成"@,
                error: None,
                ..idle
            }.logged(now, LogLevel::Success, "轉換成功完成"@),
            Some(e) => if says_cancelled(e) {
                AppView {
                    phase: Phase::Ready,
                    progress: Progress::at(0),
                    message: "轉換已取消"@,
                    error: None,
                    ..idle
                }.logged(now, LogLevel::Warn, "轉換已取消"@)
            } else {
                AppView {
                    phase: Phase::Failed,
                    progress: Progress::at(0),
                    message: "轉換失敗"@,
                    error: Some(e),
                    ..idle
                }.logged(now, LogLevel::Error, "轉換失敗: "@ + e)
            },
        }
    }

    /// The state behind a message of the worker.
    pub open spec fn heard(self, now: Seq<char>, event: WorkerEvent) -> AppView {
        match event {
            WorkerEvent::Progress(update) => self.progressed(now, update@),
            WorkerEvent::Finished(Ok(())) => self.finished(now, None),
            WorkerEvent::Finished(Err(e)) => self.finished(now, Some(e@)),
        }
    }

    /// The state once settings and game were looked up again.
    pub open spec fn refreshed(
        self,
        now: Seq<char>,
        loaded: Result<ConfigView, ErrorView>,
        game_info: GamePathView,
    ) -> AppView {
        AppView { game_info, ..self.with_config(now, loaded) }.logged(
            now,
            LogLevel::Info,
            "已重新載入設定與路徑資訊"@,
        )
    }

    /// The state behind a key, and what is to be done outside for it. `q` and
    /// escape leave the program, or stop a run that goes on; `s` starts a run;
    /// `x` stops one; `r` refreshes.
    pub open spec fn keyed(self, now: Seq<char>, kind: KeyKind, key: Key) -> (AppView, Action) {
        let stop = (
            self.stopping(now),
            if self.phase == Phase::Running && self.cancellable {
                Action::StopWorker
            } else {
                Action::Nothing
            },
        );
        if kind == KeyKind::Release {
            (self, Action::Nothing)
        } else if key == Key::Char('q') || key == Key::Esc {
            if self.phase == Phase::Running {
                stop
            } else {
                (AppView { should_quit: true, ..self }, Action::Nothing)
            }
        } else if key == Key::Char('s') {
            (
                self.started(now),
                if self.phase == Phase::Running {
                    Action::Nothing
                } else {
                    Action::StartWorker
                },
            )
        } else if key == Key::Char('x') {
            stop
        } else if key == Key::Char('r') {
            (self, Action::Refresh)
        } else {
            (self, Action::Nothing)
        }
    }

    /// Which of the five steps on the screen the program is at.
    pub open spec fn step_index(self) -> nat {
        if self.phase == Phase::Success {
            4
        } else if !self.progress.has_reached(100) {
            0
        } else if !self.progress.has_reached(400) {
            1
        } else if !self.progress.has_reached(600) {
            2
        } else if !self.progress.has_reached(990) {
            3
        } else {
            4
        }
    }
}

/// Loaded settings, or why they could not be loaded, by their characters.
pub open spec fn load_view(loaded: Result<Config, AppError>) -> Result<ConfigView, ErrorView> {
    match loaded {
        Ok(config) => Ok(config@),
        Err(e) => Err(e@),
    }
}

impl App {
    /// The state with which the program starts.
    pub fn new(now: &str, game_info: GamePathInfo, loaded: Result<Config, AppError>) -> (r: App)
        ensures
            r@ == AppView::start(now@, game_info@, load_view(loaded)),
            r@.wf(),
    {
        let mut app = App {
            phase: Phase::Ready,
            progress: fixed(0),
            message: "按 S 開始轉換，按 Q 離開".to_string(),
            error: None,
            current_file: None,
            total_files: None,
            processed_files: None,
            logs: VecDeque::with_capacity(MAX_LOG_LINES),
            log_scroll: 0,
            cancellable: false,
            config: None,
            game_info,
            should_quit: false,
            last_logged_message: None,
        };
        assert(app@.logs == Seq::<LogView>::empty());
        app.reload_config(now, loaded);
        if app.game_info.found {
            app.push_log(now, LogLevel::Success, "已偵測到 Limbus Company 安裝路徑");
        } else {
            app.push_log(
                now,
                LogLevel::Warn,
                "找不到 Limbus Company 路徑，將使用預設輸出資料夾",
            );
        }
        app.push_log(now, LogLevel::Info, "TUI 已就緒，可開始執行轉換");
        app
    }

    /// Puts a line behind the log.
    pub fn push_log(&mut self, now: &str, level: LogLevel, message: &str)
        requires
            old(self)@.wf(),
        ensures
            final(self)@ == old(self)@.logged(now@, level, message@),
            final(self)@.wf(),
    {
        let ghost had = self@.logs;
        assert(had.len() == self.logs@.len());
        if self.logs.len() >= MAX_LOG_LINES {
            let _ = self.logs.pop_front();
            assert(log_views(self.logs@) == had.drop_first());
        }
        let ghost left = log_views(self.logs@);
        let entry = LogEntry {
            timestamp: now.to_string(),
            level,
            message: message.to_string(),
        };
        self.logs.push_back(entry);
        assert(log_views(self.logs@) == left.push(entry@));
    }

    /// Takes the settings that were loaded, or why they could not be.
    pub fn reload_config(&mut self, now: &str, loaded: Result<Config, AppError>)
        requires
            old(self)@.wf(),
        ensures
            final(self)@ == old(self)@.with_config(now@, load_view(loaded)),
            final(self)@.wf(),
    {
        match loaded {
            Ok(config) => {
                self.config = Some(config);
                self.push_log(now, LogLevel::Info, "設定檔已載入");
            },
            Err(e) => {
                let text = e.message();
                self.config = None;
                self.phase = Phase::Failed;
                let line = concat("設定檔載入失敗: ", text.as_str());
                self.error = Some(text);
                self.push_log(now, LogLevel::Error, line.as_str());
            },
        }
    }

    /// Whether a run goes on.
    pub fn running(&self) -> (r: bool)
        ensures
            r == (self@.phase == Phase::Running),
    {
        self.phase == Phase::Running
    }

    /// Asks for a run; whether a worker is to be started for it.
    pub fn start_conversion(&mut self, now: &str) -> (r: bool)
        requires
            old(self)@.wf(),
        ensures
            final(self)@ == old(self)@.started(now@),
            final(self)@.wf(),
            r == (old(self)@.phase != Phase::Running),
    {
        if self.running() {
            self.push_log(now, LogLevel::Warn, "轉換已在執行中");
            return false;
        }
        self.phase = Phase::Running;
        self.progress = fixed(0);
        self.error = None;
        self.message = "啟動轉換工作...".to_string();
        self.current_file = None;
        self.total_files = None;
        self.processed_files = None;
        self.cancellable = true;
        self.last_logged_message = None;
        self.push_log(now, LogLevel::Info, "開始執行轉換流程");
        true
    }

    /// Asks a run to stop; whether its worker is to be told.
    pub fn request_cancel(&mut self, now: &str) -> (r: bool)
        requires
            old(self)@.wf(),
        ensures
            final(self)@ == old(self)@.stopping(now@),
            final(self)@.wf(),
            r == (old(self)@.phase == Phase::Running),
    {
        if !self.running() {
            self.push_log(now, LogLevel::Warn, "目前沒有進行中的轉換");
            return false;
        }
        self.push_log(now, LogLevel::Warn, "已送出取消請求，等待安全停止...");
        self.message = "正在取消轉換...".to_string();
        true
    }

    /// Takes a message of the worker; whether the settings are to be loaded
    /// again for it.
    pub fn handle_worker_event(&mut self, now: &str, event: WorkerEvent) -> (r: bool)
        requires
            old(self)@.wf(),
            event matches WorkerEvent::Progress(update) ==> update.progress.wf(),
        ensures
            final(self)@ == old(self)@.heard(now@, event),
            final(self)@.wf(),
            r == (event matches WorkerEvent::Finished(Ok(()))),
    {
        match event {
            WorkerEvent::Progress(update) => {
                let same = match &self.last_logged_message {
                    Some(last) => same_text(last.as_str(), update.message.as_str()),
                    None => false,
                };
                self.progress = update.progress.clamp();
                self.current_file = update.current_file;
                self.total_files = update.total_files;
                self.processed_files = update.processed_files;
                self.last_logged_message = Some(update.message.as_str().to_string());
                if !same {
                    self.push_log(now, LogLevel::Info, update.message.as_str());
                }
                self.message = update.message;
                false
            },
            WorkerEvent::Finished(result) => {
                self.cancellable = false;
                self.last_logged_message = None;
                match result {
                    Ok(()) => {
                        self.phase = Phase::Success;
                        self.progress = fixed(1000);
                        self.message = "轉換完成".to_string();
                        self.error = None;
                        self.push_log(now, LogLevel::Success, "轉換成功完成");
                        true
                    },
                    Err(err) => {
                        self.progress = fixed(0);
                        if contains(to_ascii_lowercase(err.as_str()).as_str(), "cancel") {
                            self.phase = Phase::Ready;
                            self.message = "轉換已取消".to_string();
                            self.error = None;
                            self.push_log(now, LogLevel::Warn, "轉換已取消");
                        } else {
                            self.phase = Phase::Failed;
                            self.message = "轉換失敗".to_string();
                            let line = concat("轉換失敗: ", err.as_str());
                            self.error = Some(err);
                            self.push_log(now, LogLevel::Error, line.as_str());
                        }
                        false
                    },
                }
            },
        }
    }

    /// Takes the settings and the game's place that were looked up again.
    pub fn refresh(
        &mut self,
        now: &str,
        loaded: Result<Config, AppError>,
        game_info: GamePathInfo,
    )
        requires
            old(self)@.wf(),
        ensures
            final(self)@ == old(self)@.refreshed(now@, load_view(loaded), game_info@),
            final(self)@.wf(),
    {
        self.reload_config(now, loaded);
        self.game_info = game_info;
        self.push_log(now, LogLevel::Info, "已重新載入設定與路徑資訊");
    }

    /// Takes a key; what is to be done outside for it.
    pub fn handle_key(&mut self, now: &str, kind: KeyKind, key: Key) -> (r: Action)
        requires
            old(self)@.wf(),
        ensures
            (final(self)@, r) == old(self)@.keyed(now@, kind, key),
            final(self)@.wf(),
    {
        if kind == KeyKind::Release {
            return Action::Nothing;
        }
        match key {
            Key::Char('q') | Key::Esc => {
                if self.running() {
                    let _ = self.request_cancel(now);
                    Action::StopWorker
                } else {
                    self.should_quit = true;
                    Action::Nothing
                }
            },
            Key::Char('s') => if self.start_conversion(now) {
                Action::StartWorker
            } else {
                Action::Nothing
            },
            Key::Char('x') => if self.request_cancel(now) {
                Action::StopWorker
            } else {
                Action::Nothing
            },
            Key::Char('r') => Action::Refresh,
            _ => Action::Nothing,
        }
    }

    /// Which of the five steps on the screen the program is at.
    pub fn current_step_index(&self) -> (r: usize)
        ensures
            r == self@.step_index(),
            r < 5,
    {
        if self.phase == Phase::Success {
            return 4;
        }
        let p = &self.progress;
        if !p.reaches(100) {
            0
        } else if !p.reaches(400) {
            1
        } else if !p.reaches(600) {
            2
        } else if !p.reaches(990) {
            3
        } else {
            4
        }
    }
}

// ---------------------------------------------------------------------------
// What the state keeps
// ---------------------------------------------------------------------------

/// The log behind lines that were put behind it one by one.
pub open spec fn log_of(entries: Seq<LogView>) -> Seq<LogView>
    decreases entries.len(),
{
    if entries.len() == 0 {
        Seq::empty()
    } else {
        log_with(log_of(entries.drop_last()), entries.last())
    }
}

/// The log holds the latest lines, in order: all of them as long as they fit.
pub proof fn law_log_holds_the_latest_lines(entries: Seq<LogView>)
    ensures
        log_of(entries) == (if entries.len() <= MAX_LOG_LINES {
            entries
        } else {
            entries.skip(entries.len() - MAX_LOG_LINES)
        }),
    decreases entries.len(),
{
    if entries.len() > 0 {
        law_log_holds_the_latest_lines(entries.drop_last());
        assert(entries.drop_last().push(entries.last()) == entries);
    }
}

/// A run that was cancelled does not count as failed: the program is ready
/// again, and shows no error.
pub proof fn law_cancelled_run_is_no_failure(app: AppView, now: Seq<char>)
    ensures
        ({
            let error = ErrorView::Other("Conversion cancelled by user"@).message();
            let after = app.finished(now, Some(error));
            &&& after.phase == Phase::Ready
            &&& after.error is None
        }),
{
    let error = ErrorView::Other("Conversion cancelled by user"@).message();
    reveal_strlit("Other error: ");
    reveal_strlit("Conversion cancelled by user");
    reveal_strlit("cancel");
    let lower = lower_text(error);
    assert(lower.subrange(24, 30) == "cancel"@);
    assert(stands_at(lower, "cancel"@, 24));
}

/// The further the work is, the further the step on the screen; a success is
/// shown at the last step.
pub proof fn law_steps_follow_progress(before: AppView, after: AppView)
    requires
        before.phase != Phase::Success,
        before.progress.wf(),
        before.progress.not_over(after.progress),
    ensures
        before.step_index() <= after.step_index() <= 4,
        after.phase == Phase::Success ==> after.step_index() == 4,
{
    if before.progress.has_reached(990) {
        lemma_reached_stays(before.progress, after.progress, 990);
    }
    if before.progress.has_reached(600) {
        lemma_reached_stays(before.progress, after.progress, 600);
    }
    if before.progress.has_reached(400) {
        lemma_reached_stays(before.progress, after.progress, 400);
    }
    if before.progress.has_reached(100) {
        lemma_reached_stays(before.progress, after.progress, 100);
    }
}

/// While a run goes on, no key leaves the program or starts a second run, and
/// escape, `q` and `x` each tell the worker to stop.
pub proof fn law_running_is_not_left(app: AppView, now: Seq<char>, kind: KeyKind, key: Key)
    requires
        app.wf(),
        app.phase == Phase::Running,
    ensures
        ({
            let (after, action) = app.keyed(now, kind, key);
            &&& after.should_quit == app.should_quit
            &&& action != Action::StartWorker
            &&& kind != KeyKind::Release && (key == Key::Esc || key == Key::Char('q') || key
                == Key::Char('x')) ==> action == Action::StopWorker
        }),
{
}

/// A log gained a line: it ends with the line, and holds before it what it held,
/// but for its oldest line where it held 250 lines or more.
pub open spec fn gained(before: Seq<LogView>, after: Seq<LogView>, line: LogView) -> bool {
    &&& after.len() > 0
    &&& after.last() == line
    &&& before.len() < 250 ==> after.drop_last() == before
    &&& before.len() >= 250 ==> after.drop_last() == before.subrange(1, before.len() as int)
}

/// A line that is logged is the last one of the log, with all of its message and
/// its time, and changes nothing but the log.
pub proof fn law_logged_line_is_the_last(
    app: AppView,
    now: Seq<char>,
    level: LogLevel,
    message: Seq<char>,
)
    ensures
        ({
            let after = app.logged(now, level, message);
            &&& gained(app.logs, after.logs, LogView { timestamp: now, level, message })
            &&& after.phase == app.phase
            &&& after.progress == app.progress
            &&& after.message == app.message
            &&& after.error == app.error
            &&& after.current_file == app.current_file
            &&& after.total_files == app.total_files
            &&& after.processed_files == app.processed_files
            &&& after.cancellable == app.cancellable
            &&& after.last_logged_message == app.last_logged_message
            &&& after.config == app.config
            &&& after.game_info == app.game_info
            &&& after.log_scroll == app.log_scroll
            &&& after.should_quit == app.should_quit
        }),
{
    let after = log_with(app.logs, LogView { timestamp: now, level, message });
    if app.logs.len() >= 250 {
        assert(after.drop_last() == app.logs.subrange(1, app.logs.len() as int));
    } else {
        assert(after.drop_last() == app.logs);
    }
}

/// The log never holds more than 250 lines.
pub proof fn law_log_is_bounded(entries: Seq<LogView>)
    ensures
        log_of(entries).len() <= 250,
        entries.len() <= 250 ==> log_of(entries) == entries,
{
    law_log_holds_the_latest_lines(entries);
}

/// A run that is asked for begins anew: nothing of an earlier run is shown, and it
/// can be cancelled. Where a run goes on already, it goes on as it is.
pub proof fn law_run_begins_anew(app: AppView, now: Seq<char>)
    ensures
        app.phase != Phase::Running ==> {
            let after = app.started(now);
            &&& after.phase == Phase::Running
            &&& after.progress.within(0)
            &&& after.progress.wf()
            &&& after.message == "啟動轉換工作..."@
            &&& after.error is None
            &&& after.current_file is None
            &&& after.total_files is None
            &&& after.processed_files is None
            &&& after.cancellable
            &&& after.last_logged_message is None
            &&& gained(
                app.logs,
                after.logs,
                LogView {
                    timestamp: now,
                    level: LogLevel::Info,
                    message: "開始執行轉換流程"@,
                },
            )
            &&& after.config == app.config
            &&& after.game_info == app.game_info
            &&& after.log_scroll == app.log_scroll
            &&& after.should_quit == app.should_quit
        },
        app.phase == Phase::Running ==> app.started(now) == app.logged(
            now,
            LogLevel::Warn,
            "轉換已在執行中"@,
        ),
{
    law_logged_line_is_the_last(app, now, LogLevel::Info, "開始執行轉換流程"@);
}

/// A run that is asked to stop goes on until its worker stops, and says that it is
/// being cancelled. Without a run there is nothing to stop.
pub proof fn law_run_stops_when_asked(app: AppView, now: Seq<char>)
    requires
        app.wf(),
    ensures
        app.phase == Phase::Running ==> {
            let after = app.stopping(now);
            &&& after.phase == Phase::Running
            &&& after.message == "正在取消轉換..."@
            &&& after.progress == app.progress
            &&& after.error == app.error
            &&& after.current_file == app.current_file
            &&& after.total_files == app.total_files
            &&& after.processed_files == app.processed_files
            &&& after.cancellable
            &&& after.last_logged_message == app.last_logged_message
            &&& gained(
                app.logs,
                after.logs,
                LogView {
                    timestamp: now,
                    level: LogLevel::Warn,
                    message: "已送出取消請求，等待安全停止..."@,
                },
            )
            &&& after.config == app.config
            &&& after.game_info == app.game_info
            &&& after.log_scroll == app.log_scroll
            &&& after.should_quit == app.should_quit
        },
        app.phase != Phase::Running ==> app.stopping(now) == app.logged(
            now,
            LogLevel::Warn,
            "目前沒有進行中的轉換"@,
        ),
{
    law_logged_line_is_the_last(
        app,
        now,
        LogLevel::Warn,
        "已送出取消請求，等待安全停止..."@,
    );
}

/// What the worker tells of its progress is what is shown, whole, and it is logged
/// just if it is other than the message logged before. Nothing else changes.
pub proof fn law_progress_is_shown_as_told(app: AppView, now: Seq<char>, update: UpdateView)
    ensures
        ({
            let after = app.progressed(now, update);
            &&& update.progress.within(1000) ==> after.progress == update.progress
            &&& !update.progress.within(1000) ==> after.progress.has_reached(1000)
                && after.progress.within(1000)
            &&& after.message == update.message
            &&& after.current_file == update.current_file
            &&& after.total_files == update.total_files
            &&& after.processed_files == update.processed_files
            &&& after.last_logged_message == Some(update.message)
            &&& after.phase == app.phase
            &&& after.error == app.error
            &&& after.cancellable == app.cancellable
            &&& app.last_logged_message == Some(update.message) ==> after.logs == app.logs
            &&& app.last_logged_message != Some(update.message) ==> gained(
                app.logs,
                after.logs,
                LogView { timestamp: now, level: LogLevel::Info, message: update.message },
            )
            &&& after.config == app.config
            &&& after.game_info == app.game_info
            &&& after.log_scroll == app.log_scroll
            &&& after.should_quit == app.should_quit
        }),
{
    law_logged_line_is_the_last(app, now, LogLevel::Info, update.message);
}

/// Behind a run there is nothing to cancel. One that ended well is a success at a
/// hundred percent; one that ended with an error that speaks of cancelling leaves
/// the program ready; one that ended with any other error has failed with all of
/// that error's text.
pub proof fn law_run_ends_as_the_worker_says(app: AppView, now: Seq<char>, error: Seq<char>)
    ensures
        forall|outcome: Option<Seq<char>>|
            {
                let after = #[trigger] app.finished(now, outcome);
                &&& !after.cancellable
                &&& after.last_logged_message is None
                &&& after.current_file == app.current_file
                &&& after.total_files == app.total_files
                &&& after.processed_files == app.processed_files
                &&& after.config == app.config
                &&& after.game_info == app.game_info
                &&& after.log_scroll == app.log_scroll
                &&& after.should_quit == app.should_quit
            },
        ({
            let after = app.finished(now, None);
            &&& after.phase == Phase::Success
            &&& after.progress.has_reached(1000) && after.progress.within(1000)
            &&& after.message == "轉換完成"@
            &&& after.error is None
            &&& gained(
                app.logs,
                after.logs,
                LogView {
                    timestamp: now,
                    level: LogLevel::Success,
                    message: "轉換成功完成"@,
                },
            )
        }),
        has_part(lower_text(error), "cancel"@) ==> {
            let after = app.finished(now, Some(error));
            &&& after.phase == Phase::Ready
            &&& after.progress.within(0)
            &&& after.message == "轉換已取消"@
            &&& after.error is None
            &&& gained(
                app.logs,
                after.logs,
                LogView { timestamp: now, level: LogLevel::Warn, message: "轉換已取消"@ },
            )
        },
        !has_part(lower_text(error), "cancel"@) ==> {
            let after = app.finished(now, Some(error));
            &&& after.phase == Phase::Failed
            &&& after.progress.within(0)
            &&& after.message == "轉換失敗"@
            &&& after.error == Some(error)
            &&& gained(
                app.logs,
                after.logs,
                LogView {
                    timestamp: now,
                    level: LogLevel::Error,
                    message: "轉換失敗: "@ + error,
                },
            )
        },
{
    law_logged_line_is_the_last(app, now, LogLevel::Success, "轉換成功完成"@);
    law_logged_line_is_the_last(app, now, LogLevel::Warn, "轉換已取消"@);
    law_logged_line_is_the_last(app, now, LogLevel::Error, "轉換失敗: "@ + error);
}

/// What the worker says is taken as it says it: its progress as progress, its end
/// as an end, with all of its error's text.
pub proof fn law_worker_is_heard(
    app: AppView,
    now: Seq<char>,
    update: ProgressUpdate,
    error: String,
)
    ensures
        app.heard(now, WorkerEvent::Progress(update)) == app.progressed(now, update@),
        app.heard(now, WorkerEvent::Finished(Ok(()))) == app.finished(now, None),
        app.heard(now, WorkerEvent::Finished(Err(error))) == app.finished(now, Some(error@)),
{
}

/// Settings that were loaded are those that are used. Where they could not be, there
/// are none, and the program has failed with the error's message.
pub proof fn law_loaded_settings_are_used(
    app: AppView,
    now: Seq<char>,
    config: ConfigView,
    error: ErrorView,
)
    ensures
        ({
            let after = app.with_config(now, Ok(config));
            &&& after.config == Some(config)
            &&& after.phase == app.phase
            &&& after.error == app.error
            &&& after.message == app.message
            &&& after.progress == app.progress
            &&& after.cancellable == app.cancellable
            &&& after.game_info == app.game_info
            &&& after.log_scroll == app.log_scroll
            &&& after.should_quit == app.should_quit
            &&& after.last_logged_message == app.last_logged_message
            &&& after.current_file == app.current_file
            &&& after.total_files == app.total_files
            &&& after.processed_files == app.processed_files
            &&& gained(
                app.logs,
                after.logs,
                LogView { timestamp: now, level: LogLevel::Info, message: "設定檔已載入"@ },
            )
        }),
        ({
            let after = app.with_config(now, Err(error));
            &&& after.config is None
            &&& after.phase == Phase::Failed
            &&& after.error == Some(error.message())
            &&& after.message == app.message
            &&& after.progress == app.progress
            &&& after.cancellable == app.cancellable
            &&& after.game_info == app.game_info
            &&& after.log_scroll == app.log_scroll
            &&& after.should_quit == app.should_quit
            &&& after.last_logged_message == app.last_logged_message
            &&& after.current_file == app.current_file
            &&& after.total_files == app.total_files
            &&& after.processed_files == app.processed_files
            &&& gained(
                app.logs,
                after.logs,
                LogView {
                    timestamp: now,
                    level: LogLevel::Error,
                    message: "設定檔載入失敗: "@ + error.message(),
                },
            )
        }),
{
    law_logged_line_is_the_last(app, now, LogLevel::Info, "設定檔已載入"@);
    law_logged_line_is_the_last(
        app,
        now,
        LogLevel::Error,
        "設定檔載入失敗: "@ + error.message(),
    );
}

/// A refresh takes the settings and the game's place as they are now, and nothing
/// else.
pub proof fn law_refresh_takes_what_is_there_now(
    app: AppView,
    now: Seq<char>,
    loaded: Result<ConfigView, ErrorView>,
    game_info: GamePathView,
)
    ensures
        ({
            let after = app.refreshed(now, loaded, game_info);
            let taken = app.with_config(now, loaded);
            &&& after.game_info == game_info
            &&& after.config == taken.config
            &&& after.phase == taken.phase
            &&& after.error == taken.error
            &&& after.message == app.message
            &&& after.progress == app.progress
            &&& after.cancellable == app.cancellable
            &&& after.log_scroll == app.log_scroll
            &&& after.should_quit == app.should_quit
            &&& after.last_logged_message == app.last_logged_message
            &&& after.current_file == app.current_file
            &&& after.total_files == app.total_files
            &&& after.processed_files == app.processed_files
            &&& gained(
                taken.logs,
                after.logs,
                LogView {
                    timestamp: now,
                    level: LogLevel::Info,
                    message: "已重新載入設定與路徑資訊"@,
                },
            )
        }),
{
    law_logged_line_is_the_last(
        app.with_config(now, loaded),
        now,
        LogLevel::Info,
        "已重新載入設定與路徑資訊"@,
    );
}

/// The program starts ready, with the settings and the game that were found and
/// nothing done yet; where the settings could not be loaded it starts with that
/// failure. Its log tells of the settings, of the game and that it is ready.
pub proof fn law_program_starts_ready(
    now: Seq<char>,
    game_info: GamePathView,
    config: ConfigView,
    error: ErrorView,
    loaded: Result<ConfigView, ErrorView>,
)
    ensures
        ({
            let app = AppView::start(now, game_info, loaded);
            &&& app.progress.within(0) && app.progress.wf()
            &&& app.message == "按 S 開始轉換，按 Q 離開"@
            &&& app.current_file is None
            &&& app.total_files is None
            &&& app.processed_files is None
            &&& app.log_scroll == 0
            &&& !app.cancellable
            &&& app.game_info == game_info
            &&& !app.should_quit
            &&& app.last_logged_message is None
            &&& app.logs.len() == 3
            &&& game_info.found ==> app.logs[1] == (LogView {
                timestamp: now,
                level: LogLevel::Success,
                message: "已偵測到 Limbus Company 安裝路徑"@,
            })
            &&& !game_info.found ==> app.logs[1] == (LogView {
                timestamp: now,
                level: LogLevel::Warn,
                message: "找不到 Limbus Company 路徑，將使用預設輸出資料夾"@,
            })
            &&& app.logs[2] == (LogView {
                timestamp: now,
                level: LogLevel::Info,
                message: "TUI 已就緒，可開始執行轉換"@,
            })
        }),
        ({
            let app = AppView::start(now, game_info, Ok(config));
            &&& app.phase == Phase::Ready
            &&& app.config == Some(config)
            &&& app.error is None
            &&& app.logs[0] == (LogView {
                timestamp: now,
                level: LogLevel::Info,
                message: "設定檔已載入"@,
            })
        }),
        ({
            let app = AppView::start(now, game_info, Err(error));
            &&& app.phase == Phase::Failed
            &&& app.config is None
            &&& app.error == Some(error.message())
            &&& app.logs[0] == (LogView {
                timestamp: now,
                level: LogLevel::Error,
                message: "設定檔載入失敗: "@ + error.message(),
            })
        }),
{
    let app = AppView::start(now, game_info, loaded);
    assert(app.progress == Progress::at(0));
    law_progress_is_measured_in_tenths(app.progress, 0, 0);
}

/// What each key does: `s` starts a run where none goes on; `x` stops the one that
/// goes on; `q` and escape stop it too, and leave the program where none goes on;
/// `r` refreshes. Any other key does nothing, and so does letting go of one.
pub proof fn law_each_key_does_its_work(app: AppView, now: Seq<char>, kind: KeyKind, key: Key)
    requires
        app.wf(),
    ensures
        ({
            let (after, action) = app.keyed(now, kind, key);
            let busy = app.phase == Phase::Running;
            let pressed = kind != KeyKind::Release;
            let leaves = key == Key::Esc || key == Key::Char('q');
            &&& action == Action::StartWorker <==> pressed && key == Key::Char('s') && !busy
            &&& action == Action::StopWorker <==> pressed && busy && (leaves || key == Key::Char(
                'x',
            ))
            &&& action == Action::Refresh <==> pressed && key == Key::Char('r')
            &&& after.should_quit == (app.should_quit || (pressed && leaves && !busy))
            &&& pressed && key == Key::Char('s') ==> after == app.started(now)
            &&& pressed && (key == Key::Char('x') || (leaves && busy)) ==> after == app.stopping(
                now,
            )
            &&& pressed && leaves && !busy ==> after.phase == app.phase && after.logs == app.logs
                && after.progress == app.progress && after.message == app.message && after.error
                == app.error && after.config == app.config && after.game_info == app.game_info
                && after.current_file == app.current_file && after.total_files == app.total_files
                && after.processed_files == app.processed_files && after.log_scroll
                == app.log_scroll && after.cancellable == app.cancellable
                && after.last_logged_message == app.last_logged_message
            &&& !pressed || !(leaves || key == Key::Char('s') || key == Key::Char('x'))
                ==> after == app
        }),
{
}

/// The step on the screen is the last one whose beginning the work has reached: ten,
/// forty, sixty and ninety-nine percent begin the second to the fifth.
pub proof fn law_step_is_the_one_reached(app: AppView)
    requires
        app.progress.wf(),
    ensures
        app.phase == Phase::Success ==> app.step_index() == 4,
        app.phase != Phase::Success ==> {
            &&& app.step_index() >= 1 <==> app.progress.has_reached(100)
            &&& app.step_index() >= 2 <==> app.progress.has_reached(400)
            &&& app.step_index() >= 3 <==> app.progress.has_reached(600)
            &&& app.step_index() >= 4 <==> app.progress.has_reached(990)
            &&& app.step_index() <= 4
        },
{
    let t = app.progress.total as int;
    assert(100 * t <= 400 * t <= 600 * t <= 990 * t);
}

/// What is said of the state's characters is said of all of it.
pub proof fn law_state_is_seen_whole(app: App)
    ensures
        app@.phase == app.phase,
        app@.progress == app.progress,
        app@.message == app.message@,
        app@.error == opt_text(app.error),
        app@.current_file == opt_text(app.current_file),
        app@.total_files == app.total_files,
        app@.processed_files == app.processed_files,
        app@.logs.len() == app.logs@.len(),
        forall|i: int|
            0 <= i < app.logs@.len() ==> (#[trigger] app@.logs[i]).timestamp
                == app.logs@[i].timestamp@ && app@.logs[i].level == app.logs@[i].level
                && app@.logs[i].message == app.logs@[i].message@,
        app@.log_scroll == app.log_scroll,
        app@.cancellable == app.cancellable,
        app.config is Some ==> app@.config == Some(app.config->Some_0@),
        app.config is None ==> app@.config is None,
        app@.game_info == app.game_info@,
        app@.should_quit == app.should_quit,
        app@.last_logged_message == opt_text(app.last_logged_message),
{
}

/// What is said of the characters of loaded settings, of a failure to load them and
/// of a line of the log is said of all of them.
pub proof fn law_loaded_is_seen_whole(config: Config, error: AppError, entry: LogEntry)
    ensures
        load_view(Ok(config)) == Ok::<ConfigView, ErrorView>(config@),
        load_view(Err(error)) == Err::<ConfigView, ErrorView>(error@),
        entry@.timestamp == entry.timestamp@,
        entry@.level == entry.level,
        entry@.message == entry.message@,
{
}

} // verus!
