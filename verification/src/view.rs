//! What the screen shows: the lines of each panel, with their colours.
use vstd::prelude::*;

use crate::config::{dates_are_readable, installed_release_date, installed_voice_update_date};
use crate::numbers::{decimal, size_to_decimal};
use crate::steam_registry::{detected_system_label, system_label, Platform};
use crate::text::{chars_of, concat, concat3, pad_end, padded, text_between};
use crate::tui::{App, AppView, LogLevel, LogView, Phase};

verus! {

// ---------------------------------------------------------------------------
// Lines and panels
// ---------------------------------------------------------------------------

/// A colour.
#[derive(Debug, Clone, Copy, PartialEq, Eq, Structural)]
pub struct Rgb {
    pub red: u8,
    pub green: u8,
    pub blue: u8,
}

/// A piece of a line.
#[derive(Debug)]
pub struct Span {
    pub text: String,
    pub color: Option<Rgb>,
    pub bold: bool,
}

/// A [`Span`] by its characters.
#[verifier::ext_equal]
pub struct SpanView {
    pub text: Seq<char>,
    pub color: Option<Rgb>,
    pub bold: bool,
}

impl View for Span {
    type V = SpanView;

    open spec fn view(&self) -> SpanView {
        SpanView { text: self.text@, color: self.color, bold: self.bold }
    }
}

/// A line.
#[derive(Debug)]
pub struct Line {
    pub spans: Vec<Span>,
}

impl View for Line {
    type V = Seq<SpanView>;

    open spec fn view(&self) -> Seq<SpanView> {
        Seq::new(self.spans@.len(), |i: int| self.spans@[i]@)
    }
}

/// The lines by their characters.
pub open spec fn line_views(v: Seq<Line>) -> Seq<Seq<SpanView>> {
    Seq::new(v.len(), |i: int| v[i]@)
}

/// A framed part of the screen: its title, its lines, whether they stand in
/// the middle, and whether and how they are wrapped.
#[derive(Debug)]
pub struct Panel {
    pub title: Option<String>,
    pub lines: Vec<Line>,
    pub centered: bool,
    pub wrap: Wrapping,
}

/// How the lines of a panel are wrapped.
#[derive(Debug, Clone, Copy, PartialEq, Eq, Structural)]
pub enum Wrapping {
    /// Not at all.
    Off,
    /// With the white space at their beginnings.
    Keep,
    /// Without the white space at their beginnings.
    Trim,
}

/// A [`Panel`] by its characters.
#[verifier::ext_equal]
pub struct PanelView {
    pub title: Option<Seq<char>>,
    pub lines: Seq<Seq<SpanView>>,
    pub centered: bool,
    pub wrap: Wrapping,
}

impl View for Panel {
    type V = PanelView;

    open spec fn view(&self) -> PanelView {
        PanelView {
            title: crate::text::opt_text(self.title),
            lines: line_views(self.lines@),
            centered: self.centered,
            wrap: self.wrap,
        }
    }
}

/// A colour by its three parts.
pub open spec fn rgb(red: u8, green: u8, blue: u8) -> Rgb {
    Rgb { red, green, blue }
}

/// A piece of a line in a colour.
pub open spec fn colored(text: Seq<char>, color: Rgb) -> SpanView {
    SpanView { text, color: Some(color), bold: false }
}

/// A piece of a line in a colour, in bold type.
pub open spec fn bold(text: Seq<char>, color: Rgb) -> SpanView {
    SpanView { text, color: Some(color), bold: true }
}

/// A piece of a line as it comes.
pub open spec fn raw(text: Seq<char>) -> SpanView {
    SpanView { text, color: None, bold: false }
}

/// A line with nothing on it.
pub open spec fn blank() -> Seq<SpanView> {
    seq![raw(Seq::empty())]
}

/// The colour of the frames.
pub fn border_color() -> (r: Rgb)
    ensures
        r == rgb(51, 65, 85),
{
    Rgb { red: 51, green: 65, blue: 85 }
}

fn colored_span(text: &str, red: u8, green: u8, blue: u8) -> (r: Span)
    ensures
        r@ == colored(text@, rgb(red, green, blue)),
{
    Span { text: text.to_string(), color: Some(Rgb { red, green, blue }), bold: false }
}

fn bold_span(text: &str, red: u8, green: u8, blue: u8) -> (r: Span)
    ensures
        r@ == bold(text@, rgb(red, green, blue)),
{
    Span { text: text.to_string(), color: Some(Rgb { red, green, blue }), bold: true }
}

fn raw_span(text: &str) -> (r: Span)
    ensures
        r@ == raw(text@),
{
    Span { text: text.to_string(), color: None, bold: false }
}

fn one(span: Span) -> (r: Line)
    ensures
        r@ == seq![span@],
{
    let mut spans: Vec<Span> = Vec::new();
    spans.push(span);
    Line { spans }
}

fn two(first: Span, second: Span) -> (r: Line)
    ensures
        r@ == seq![first@, second@],
{
    let mut spans: Vec<Span> = Vec::new();
    spans.push(first);
    spans.push(second);
    Line { spans }
}

fn three(first: Span, second: Span, third: Span) -> (r: Line)
    ensures
        r@ == seq![first@, second@, third@],
{
    let mut spans: Vec<Span> = Vec::new();
    spans.push(first);
    spans.push(second);
    spans.push(third);
    Line { spans }
}

fn blank_line() -> (r: Line)
    ensures
        r@ == blank(),
{
    one(Span { text: String::new(), color: None, bold: false })
}

/// Puts a line behind lines.
fn put(lines: &mut Vec<Line>, line: Line)
    ensures
        line_views(final(lines)@) == line_views(old(lines)@).push(line@),
{
    let ghost had = line_views(lines@);
    lines.push(line);
    assert(line_views(lines@) == had.push(line@));
}

/// `a` less `b`, zero at least.
pub open spec fn less(a: int, b: int) -> int {
    if a > b {
        a - b
    } else {
        0
    }
}

/// How many blank lines put `count` lines into the middle of a panel of a
/// height. The frame takes two lines of the height.
pub open spec fn top_padding(height: u16, count: nat) -> nat {
    (less(less(height as int, 2), count as int) / 2) as nat
}

/// Lines with blank lines in front.
pub open spec fn lowered(count: nat, lines: Seq<Seq<SpanView>>) -> Seq<Seq<SpanView>> {
    Seq::new(count, |i: int| blank()) + lines
}

/// Lines with blank lines in front that put them into the middle of a panel.
fn in_the_middle(height: u16, content: Vec<Line>) -> (r: Vec<Line>)
    ensures
        line_views(r@) == lowered(top_padding(height, content@.len()), line_views(content@)),
{
    let inner: usize = if height > 2 {
        (height - 2) as usize
    } else {
        0
    };
    let padding: usize = if inner > content.len() {
        (inner - content.len()) / 2
    } else {
        0
    };
    let mut lines: Vec<Line> = Vec::new();
    let mut i: usize = 0;
    while i < padding
        invariant
            i <= padding,
            line_views(lines@) == Seq::new(i as nat, |i: int| blank()),
        decreases padding - i,
    {
        put(&mut lines, blank_line());
        assert(Seq::new((i + 1) as nat, |i: int| blank()) == Seq::new(
            i as nat,
            |i: int| blank(),
        ).push(blank()));
        i += 1;
    }
    let ghost front = line_views(lines@);
    let ghost back = line_views(content@);
    let mut content = content;
    lines.append(&mut content);
    assert(line_views(lines@) == front + back);
    lines
}

// ---------------------------------------------------------------------------
// Texts that fit
// ---------------------------------------------------------------------------

/// A text that has more than `max_chars` characters, cut to its end behind
/// three dots.
pub open spec fn shortened(input: Seq<char>, max_chars: nat) -> Seq<char> {
    if input.len() <= max_chars {
        input
    } else {
        "..."@ + input.skip(input.len() - less(max_chars as int, 3))
    }
}

/// A text that has more than `max_chars` characters, cut to its end behind
/// three dots.
pub fn ellipsize(input: &str, max_chars: usize) -> (r: String)
    ensures
        r@ == shortened(input@, max_chars as nat),
{
    let v = chars_of(input);
    let total = v.len();
    if total <= max_chars {
        return input.to_string();
    }
    let tail: usize = if max_chars > 3 {
        max_chars - 3
    } else {
        0
    };
    let end = text_between(&v, total - tail, total);
    assert(end@ == input@.skip(total - tail));
    concat("...", end.as_str())
}

/// A shortened text has no more characters than were asked for, or than the
/// three dots; it ends as the text ends, and is the text where that fits.
pub proof fn law_shortened_text_fits(input: Seq<char>, max_chars: nat)
    ensures
        shortened(input, max_chars).len() <= max_chars || shortened(input, max_chars).len() == 3,
        max_chars >= 3 ==> shortened(input, max_chars).len() <= max_chars,
        input.len() <= max_chars ==> shortened(input, max_chars) == input,
        input.len() > max_chars ==> "..."@.is_prefix_of(shortened(input, max_chars)) && shortened(
            input,
            max_chars,
        ).skip(3).is_suffix_of(input),
{
    reveal_strlit("...");
    if input.len() > max_chars {
        let end = input.skip(input.len() - less(max_chars as int, 3));
        assert(shortened(input, max_chars).skip(3) == end);
        assert(shortened(input, max_chars).subrange(0, 3) == "..."@);
    }
}

// ---------------------------------------------------------------------------
// The panels
// ---------------------------------------------------------------------------

/// The panel with the program's name.
pub open spec fn header_view(height: u16, platform: Platform) -> PanelView {
    PanelView {
        title: None,
        lines: lowered(
            top_padding(height, 6),
            seq![
                seq![bold("Limbus"@, rgb(239, 68, 68)), raw(" "@), bold("Company"@, rgb(245, 158, 11))],
                blank(),
                seq![bold("零協會文本正體中文化轉換工具"@, rgb(248, 250, 252))],
                blank(),
                blank(),
                seq![bold("系統偵測 : "@ + system_label(platform), rgb(148, 163, 184))],
            ],
        ),
        centered: true,
        wrap: Wrapping::Keep,
    }
}

/// The panel with the program's name.
pub fn render_header(height: u16, platform: Platform) -> (r: Panel)
    ensures
        r@ == header_view(height, platform),
{
    let mut content: Vec<Line> = Vec::new();
    let ghost before = line_views(content@);
    assert(before == Seq::<Seq<SpanView>>::empty());
    put(
        &mut content,
        three(bold_span("Limbus", 239, 68, 68), raw_span(" "), bold_span("Company", 245, 158, 11)),
    );
    put(&mut content, blank_line());
    put(&mut content, one(bold_span("零協會文本正體中文化轉換工具", 248, 250, 252)));
    put(&mut content, blank_line());
    put(&mut content, blank_line());
    let system = concat("系統偵測 : ", detected_system_label(platform));
    put(&mut content, one(bold_span(system.as_str(), 148, 163, 184)));
    assert(line_views(content@).len() == content@.len());
    let lines = in_the_middle(height, content);
    Panel { title: None, lines, centered: true, wrap: Wrapping::Keep }
}

/// A date as it is shown, or that there is none.
pub open spec fn shown_date(date: Option<Seq<char>>) -> Seq<char> {
    match date {
        Some(text) => text,
        None => "尚未記錄"@,
    }
}

/// The recorded dates can be shown.
pub open spec fn dates_can_be_shown(app: AppView) -> bool {
    app.config matches Some(config) ==> config.release_date_readable()
        && config.voice_date_readable()
}

/// Whether the recorded dates can be shown.
pub fn can_show_dates(app: &App) -> (r: bool)
    ensures
        r == dates_can_be_shown(app@),
{
    match &app.config {
        Some(config) => dates_are_readable(config),
        None => true,
    }
}

/// The panel with the dates of what is installed.
pub open spec fn status_view(height: u16, app: AppView) -> PanelView {
    let voice = match app.config {
        Some(config) => config.voice_date(),
        None => None,
    };
    let release = match app.config {
        Some(config) => config.release_date(),
        None => None,
    };
    PanelView {
        title: Some(" Status "@),
        lines: lowered(
            top_padding(height, 3),
            seq![
                seq![
                    bold("戰鬥氣泡更新日期 : "@, rgb(148, 163, 184)),
                    bold(shown_date(voice), rgb(96, 165, 250)),
                ],
                blank(),
                seq![
                    bold("遊戲文本更新日期 : "@, rgb(148, 163, 184)),
                    bold(shown_date(release), rgb(74, 222, 128)),
                ],
            ],
        ),
        centered: true,
        wrap: Wrapping::Keep,
    }
}

/// The panel with the dates of what is installed.
pub fn render_status_panel(height: u16, app: &App) -> (r: Panel)
    requires
        dates_can_be_shown(app@),
    ensures
        r@ == status_view(height, app@),
{
    let (voice, release) = match &app.config {
        Some(config) => (installed_voice_update_date(config), installed_release_date(config)),
        None => (None, None),
    };
    let voice_date = match voice {
        Some(date) => date,
        None => "尚未記錄".to_string(),
    };
    let text_date = match release {
        Some(date) => date,
        None => "尚未記錄".to_string(),
    };
    let mut content: Vec<Line> = Vec::new();
    let ghost before = line_views(content@);
    assert(before == Seq::<Seq<SpanView>>::empty());
    put(
        &mut content,
        two(
            bold_span("戰鬥氣泡更新日期 : ", 148, 163, 184),
            bold_span(voice_date.as_str(), 96, 165, 250),
        ),
    );
    put(&mut content, blank_line());
    put(
        &mut content,
        two(
            bold_span("遊戲文本更新日期 : ", 148, 163, 184),
            bold_span(text_date.as_str(), 74, 222, 128),
        ),
    );
    assert(line_views(content@).len() == content@.len());
    let lines = in_the_middle(height, content);
    Panel { title: Some(" Status ".to_string()), lines, centered: true, wrap: Wrapping::Keep }
}

/// The names of the steps on the screen.
pub open spec fn step_names() -> Seq<Seq<char>> {
    seq!["初始化"@, "版本檢查"@, "下載/解壓"@, "文字轉換"@, "語音同步"@]
}

/// A step on the screen: done, current, or still to come.
pub open spec fn step_span(index: int, current: int) -> SpanView {
    let name = step_names()[index];
    if index < current {
        bold("● "@ + name, rgb(16, 185, 129))
    } else if index == current {
        bold("◉ "@ + name, rgb(245, 158, 11))
    } else {
        colored("○ "@ + name, rgb(100, 116, 139))
    }
}

/// The panel with the steps.
pub open spec fn steps_view(app: AppView) -> PanelView {
    let current = app.step_index() as int;
    let gap = colored("  ─  "@, rgb(71, 85, 105));
    PanelView {
        title: Some(" Pipeline "@),
        lines: seq![
            seq![
                step_span(0, current),
                gap,
                step_span(1, current),
                gap,
                step_span(2, current),
                gap,
                step_span(3, current),
                gap,
                step_span(4, current),
            ],
        ],
        centered: false,
        wrap: Wrapping::Off,
    }
}

fn step(name: &str, index: usize, current: usize) -> (r: Span)
    requires
        index < 5,
        name@ == step_names()[index as int],
    ensures
        r@ == step_span(index as int, current as int),
{
    if index < current {
        bold_span(concat("● ", name).as_str(), 16, 185, 129)
    } else if index == current {
        bold_span(concat("◉ ", name).as_str(), 245, 158, 11)
    } else {
        colored_span(concat("○ ", name).as_str(), 100, 116, 139)
    }
}

fn gap() -> (r: Span)
    ensures
        r@ == colored("  ─  "@, rgb(71, 85, 105)),
{
    colored_span("  ─  ", 71, 85, 105)
}

/// The panel with the steps.
pub fn render_steps_panel(app: &App) -> (r: Panel)
    ensures
        r@ == steps_view(app@),
{
    let current = app.current_step_index();
    let mut spans: Vec<Span> = Vec::new();
    spans.push(step("初始化", 0, current));
    spans.push(gap());
    spans.push(step("版本檢查", 1, current));
    spans.push(gap());
    spans.push(step("下載/解壓", 2, current));
    spans.push(gap());
    spans.push(step("文字轉換", 3, current));
    spans.push(gap());
    spans.push(step("語音同步", 4, current));
    let line = Line { spans };
    assert(line@ == steps_view(app@).lines[0]);
    let mut lines: Vec<Line> = Vec::new();
    let ghost before = line_views(lines@);
    assert(before == Seq::<Seq<SpanView>>::empty());
    put(&mut lines, line);
    Panel { title: Some(" Pipeline ".to_string()), lines, centered: false, wrap: Wrapping::Off }
}

/// Where the translation comes from: the owner and the name of its repository.
pub open spec fn provider(app: AppView) -> (Seq<char>, Seq<char>) {
    match app.config {
        Some(config) => (config.repo_owner, config.repo_name),
        None => ("設定讀取失敗"@, "-"@),
    }
}

/// Where the translation comes from.
pub fn translation_provider_parts(app: &App) -> (r: (String, String))
    ensures
        (r.0@, r.1@) == provider(app@),
{
    match &app.config {
        Some(config) => (
            config.repo_owner.as_str().to_string(),
            config.repo_name.as_str().to_string(),
        ),
        None => ("設定讀取失敗".to_string(), "-".to_string()),
    }
}

/// The panel with those whose texts are used.
pub open spec fn info_view(app: AppView) -> PanelView {
    PanelView {
        title: Some(" Provider "@),
        lines: seq![
            seq![bold("◆ 語音氣泡文本提供者"@, rgb(148, 163, 184))],
            seq![colored("  ├ "@ + "sipdetect"@, rgb(56, 189, 248))],
            seq![colored("  └ "@ + "LimbusDialogueBoxes_ZH"@, rgb(125, 211, 252))],
            seq![bold("◆ 翻譯來源提供者"@, rgb(148, 163, 184))],
            seq![colored("  ├ "@ + shortened(provider(app).0, 36), rgb(74, 222, 128))],
            seq![colored("  └ "@ + shortened(provider(app).1, 36), rgb(190, 242, 100))],
        ],
        centered: false,
        wrap: Wrapping::Trim,
    }
}

/// The panel with those whose texts are used.
pub fn render_info_panel(app: &App) -> (r: Panel)
    ensures
        r@ == info_view(app@),
{
    let (owner, repo) = translation_provider_parts(app);
    let owner = ellipsize(owner.as_str(), 36);
    let repo = ellipsize(repo.as_str(), 36);
    let mut lines: Vec<Line> = Vec::new();
    let ghost before = line_views(lines@);
    assert(before == Seq::<Seq<SpanView>>::empty());
    put(&mut lines, one(bold_span("◆ 語音氣泡文本提供者", 148, 163, 184)));
    let text = concat("  ├ ", "sipdetect");
    put(&mut lines, one(colored_span(text.as_str(), 56, 189, 248)));
    let text = concat("  └ ", "LimbusDialogueBoxes_ZH");
    put(&mut lines, one(colored_span(text.as_str(), 125, 211, 252)));
    put(&mut lines, one(bold_span("◆ 翻譯來源提供者", 148, 163, 184)));
    let text = concat("  ├ ", owner.as_str());
    put(&mut lines, one(colored_span(text.as_str(), 74, 222, 128)));
    let text = concat("  └ ", repo.as_str());
    put(&mut lines, one(colored_span(text.as_str(), 190, 242, 100)));
    Panel { title: Some(" Provider ".to_string()), lines, centered: false, wrap: Wrapping::Trim }
}

/// A name and what it stands for, on one line.
pub open spec fn kv(label: Seq<char>, value: Seq<char>) -> Seq<SpanView> {
    seq![
        bold(padded(label, 10) + " "@, rgb(148, 163, 184)),
        colored(value, rgb(226, 232, 240)),
    ]
}

/// A name and what it stands for, on one line.
pub fn kv_line(label: &str, value: &str) -> (r: Line)
    ensures
        r@ == kv(label@, value@),
{
    let name = concat(pad_end(label, 10).as_str(), " ");
    two(bold_span(name.as_str(), 148, 163, 184), colored_span(value, 226, 232, 240))
}

/// A text where there is one, shortened, or a dash.
pub open spec fn or_dash(text: Option<Seq<char>>) -> Seq<char> {
    match text {
        Some(text) => shortened(text, 48),
        None => "-"@,
    }
}

/// The panel with the details of the work.
pub open spec fn detail_view(app: AppView) -> PanelView {
    let counter = match (app.processed_files, app.total_files) {
        (Some(done), Some(total)) => decimal(done as nat) + "/"@ + decimal(total as nat),
        _ => "-"@,
    };
    let work = seq![
        kv("目前檔案"@, or_dash(app.current_file)),
        kv("處理進度"@, counter),
        kv("錯誤"@, or_dash(app.error)),
    ];
    let output = match app.game_info.output_path {
        Some(path) => work.push(kv("輸出目標"@, shortened(path, 48))),
        None => work,
    };
    let game = match app.game_info.game_path {
        Some(path) => output.push(kv("遊戲目錄"@, shortened(path, 48))),
        None => output,
    };
    PanelView {
        title: Some(" Details "@),
        lines: game,
        centered: false,
        wrap: Wrapping::Trim,
    }
}

fn text_or_dash(text: &Option<String>) -> (r: String)
    ensures
        r@ == or_dash(crate::text::opt_text(*text)),
{
    match text {
        Some(text) => ellipsize(text.as_str(), 48),
        None => "-".to_string(),
    }
}

/// The panel with the details of the work.
pub fn render_detail_panel(app: &App) -> (r: Panel)
    ensures
        r@ == detail_view(app@),
{
    let current_file = text_or_dash(&app.current_file);
    let counter = match (app.processed_files, app.total_files) {
        (Some(done), Some(total)) => concat3(
            size_to_decimal(done).as_str(),
            "/",
            size_to_decimal(total).as_str(),
        ),
        _ => "-".to_string(),
    };
    let error = text_or_dash(&app.error);
    let mut lines: Vec<Line> = Vec::new();
    let ghost before = line_views(lines@);
    assert(before == Seq::<Seq<SpanView>>::empty());
    put(&mut lines, kv_line("目前檔案", current_file.as_str()));
    put(&mut lines, kv_line("處理進度", counter.as_str()));
    put(&mut lines, kv_line("錯誤", error.as_str()));
    if let Some(path) = &app.game_info.output_path {
        put(&mut lines, kv_line("輸出目標", ellipsize(path.as_str(), 48).as_str()));
    }
    if let Some(path) = &app.game_info.game_path {
        put(&mut lines, kv_line("遊戲目錄", ellipsize(path.as_str(), 48).as_str()));
    }
    Panel { title: Some(" Details ".to_string()), lines, centered: false, wrap: Wrapping::Trim }
}

/// The panel that says what key to press.
pub open spec fn footer_view(app: AppView) -> PanelView {
    let line = if app.phase == Phase::Success || app.phase == Phase::Failed {
        bold("[按 Q 離開]"@, rgb(248, 113, 113))
    } else {
        bold("[按 S 開始轉換]"@, rgb(56, 189, 248))
    };
    PanelView {
        title: Some(" Controls "@),
        lines: seq![seq![line]],
        centered: true,
        wrap: Wrapping::Off,
    }
}

/// The panel that says what key to press.
pub fn render_footer(app: &App) -> (r: Panel)
    ensures
        r@ == footer_view(app@),
{
    let span = if app.phase == Phase::Success || app.phase == Phase::Failed {
        bold_span("[按 Q 離開]", 248, 113, 113)
    } else {
        bold_span("[按 S 開始轉換]", 56, 189, 248)
    };
    let mut lines: Vec<Line> = Vec::new();
    let ghost before = line_views(lines@);
    assert(before == Seq::<Seq<SpanView>>::empty());
    put(&mut lines, one(span));
    Panel { title: Some(" Controls ".to_string()), lines, centered: true, wrap: Wrapping::Off }
}

// ---------------------------------------------------------------------------
// The log
// ---------------------------------------------------------------------------

/// How many lines of the log are visible in a panel of a height.
pub open spec fn visible_lines(height: u16) -> int {
    less(height as int, 2)
}

/// How far the log is scrolled back: no further than to its beginning.
pub open spec fn scrolled(height: u16, app: AppView) -> int {
    let most = less(app.logs.len() as int, visible_lines(height));
    if app.log_scroll < most {
        app.log_scroll as int
    } else {
        most
    }
}

/// The first line of the log that is shown.
pub open spec fn first_shown(height: u16, app: AppView) -> int {
    less(app.logs.len() as int, visible_lines(height) + scrolled(height, app))
}

/// The line behind the last line of the log that is shown.
pub open spec fn behind_shown(height: u16, app: AppView) -> int {
    let end = first_shown(height, app) + visible_lines(height);
    if end < app.logs.len() {
        end
    } else {
        app.logs.len() as int
    }
}

/// The mark of a line of the log.
pub open spec fn level_icon(level: LogLevel) -> Seq<char> {
    match level {
        LogLevel::Info => "•"@,
        LogLevel::Success => "✓"@,
        LogLevel::Warn => "⚠"@,
        LogLevel::Error => "✗"@,
    }
}

/// The colour of a line of the log.
pub open spec fn level_color(level: LogLevel) -> Rgb {
    match level {
        LogLevel::Info => rgb(148, 163, 184),
        LogLevel::Success => rgb(16, 185, 129),
        LogLevel::Warn => rgb(245, 158, 11),
        LogLevel::Error => rgb(239, 68, 68),
    }
}

/// A line of the log as it is shown.
pub open spec fn log_line(entry: LogView) -> Seq<SpanView> {
    seq![
        colored("["@ + entry.timestamp + "] "@, rgb(100, 116, 139)),
        bold(level_icon(entry.level) + " "@, level_color(entry.level)),
        colored(entry.message, level_color(entry.level)),
    ]
}

/// The title over the log: which lines are shown, of how many, and how far
/// it is scrolled back.
pub open spec fn log_title(height: u16, app: AppView) -> Seq<char> {
    let total = app.logs.len();
    let from = if total == 0 {
        0
    } else {
        first_shown(height, app) + 1
    };
    let to = if total == 0 {
        0
    } else {
        behind_shown(height, app)
    };
    let range = " Logs "@ + decimal(from as nat) + "-"@ + decimal(to as nat) + "/"@ + decimal(
        total,
    );
    if scrolled(height, app) > 0 {
        range + " (↑"@ + decimal(scrolled(height, app) as nat) + ") "@
    } else {
        range + " "@
    }
}

/// The panel with the log.
pub open spec fn log_view(height: u16, app: AppView) -> PanelView {
    PanelView {
        title: Some(log_title(height, app)),
        lines: app.logs.subrange(first_shown(height, app), behind_shown(height, app)).map_values(
            |entry: LogView| log_line(entry),
        ),
        centered: false,
        wrap: Wrapping::Off,
    }
}

/// The panel with the log.
pub fn render_log_panel(height: u16, app: &App) -> (r: Panel)
    requires
        app@.wf(),
    ensures
        r@ == log_view(height, app@),
{
    let visible: usize = if height > 2 {
        (height - 2) as usize
    } else {
        0
    };
    let total = app.logs.len();
    assert(app@.logs.len() == total);
    let most: usize = if total > visible {
        total - visible
    } else {
        0
    };
    let scroll: usize = if app.log_scroll < most {
        app.log_scroll
    } else {
        most
    };
    let start: usize = if total > visible + scroll {
        total - (visible + scroll)
    } else {
        0
    };
    let end: usize = if start + visible < total {
        start + visible
    } else {
        total
    };
    let mut lines: Vec<Line> = Vec::new();
    let ghost f = |entry: LogView| log_line(entry);
    let ghost shown = app@.logs.subrange(start as int, end as int).map_values(f);
    assert(line_views(lines@) == shown.take(0));
    let mut i: usize = start;
    while i < end
        invariant
            f == (|entry: LogView| log_line(entry)),
            shown == app@.logs.subrange(start as int, end as int).map_values(f),
            start <= i <= end <= app@.logs.len(),
            app@.logs.len() == app.logs@.len(),
            line_views(lines@) == shown.take(i - start),
        decreases end - i,
    {
        let entry = &app.logs[i];
        let (icon, red, green, blue) = match entry.level {
            LogLevel::Info => ("•", 148u8, 163u8, 184u8),
            LogLevel::Success => ("✓", 16u8, 185u8, 129u8),
            LogLevel::Warn => ("⚠", 245u8, 158u8, 11u8),
            LogLevel::Error => ("✗", 239u8, 68u8, 68u8),
        };
        let stamp = concat3("[", entry.timestamp.as_str(), "] ");
        let mark = concat(icon, " ");
        let line = three(
            colored_span(stamp.as_str(), 100, 116, 139),
            bold_span(mark.as_str(), red, green, blue),
            colored_span(entry.message.as_str(), red, green, blue),
        );
        assert(entry@ == app@.logs[i as int]);
        assert(line@ == log_line(entry@));
        put(&mut lines, line);
        assert(shown.take(i - start + 1) == shown.take(i - start).push(shown[i - start]));
        i += 1;
    }
    assert(shown.take(end - start) == shown);
    let from: usize = if total == 0 {
        0
    } else {
        start + 1
    };
    let to: usize = if total == 0 {
        0
    } else {
        end
    };
    let mut title = concat(" Logs ", size_to_decimal(from).as_str());
    title.append("-");
    title.append(size_to_decimal(to).as_str());
    title.append("/");
    title.append(size_to_decimal(total).as_str());
    if scroll > 0 {
        title.append(" (↑");
        title.append(size_to_decimal(scroll).as_str());
        title.append(") ");
    } else {
        title.append(" ");
    }
    Panel { title: Some(title), lines, centered: false, wrap: Wrapping::Off }
}

/// As many lines of the log are shown as fit and as there are; where the log
/// is not scrolled back, they are the latest ones.
pub proof fn law_log_panel_is_filled(height: u16, app: AppView)
    ensures
        log_view(height, app).lines.len() == (if app.logs.len() < visible_lines(height) {
            app.logs.len() as int
        } else {
            visible_lines(height)
        }),
        app.log_scroll == 0 ==> behind_shown(height, app) == app.logs.len(),
{
}

/// A text that is too long is shown as three dots and its last characters, just as
/// many as still fit; with no room for any, as three dots.
pub proof fn law_shortened_text_keeps_its_end(front: Seq<char>, end: Seq<char>, max_chars: nat)
    requires
        front.len() + end.len() > max_chars,
        end.len() == (if max_chars >= 3 {
            max_chars - 3
        } else {
            0
        }),
    ensures
        shortened(front + end, max_chars) == seq!['.', '.', '.'] + end,
{
    reveal_strlit("...");
    assert((front + end).skip(front.len() as int) == end);
}

/// Lines that fit into a panel stand in its middle: there are as many lines above
/// them as below, or one fewer. Lines that do not fit begin at the top.
pub proof fn law_lines_stand_in_the_middle(height: u16, lines: Seq<Seq<SpanView>>)
    ensures
        ({
            let above = top_padding(height, lines.len());
            let below = height - 2 - lines.len() - above;
            &&& height >= 2 + lines.len() ==> above == below || above + 1 == below
            &&& height < 2 + lines.len() ==> above == 0
            &&& lowered(above, lines).len() == above + lines.len()
            &&& forall|i: int|
                0 <= i < above ==> (#[trigger] lowered(above, lines)[i]) == seq![
                    SpanView { text: Seq::empty(), color: None, bold: false },
                ]
            &&& lowered(above, lines).subrange(above as int, (above + lines.len()) as int) == lines
        }),
{
}

/// What a line reads, whatever its colours.
pub open spec fn reads(line: Seq<SpanView>) -> Seq<char>
    decreases line.len(),
{
    if line.len() == 0 {
        Seq::empty()
    } else {
        reads(line.drop_last()) + line.last().text
    }
}

proof fn lemma_reads(line: Seq<SpanView>)
    ensures
        line.len() == 1 ==> reads(line) == line[0].text,
        line.len() == 2 ==> reads(line) == line[0].text + line[1].text,
        line.len() == 3 ==> reads(line) == line[0].text + line[1].text + line[2].text,
{
    reveal_with_fuel(reads, 4);
    if line.len() == 1 {
        assert(line.drop_last() == Seq::<SpanView>::empty());
        assert(reads(line) == line[0].text);
    } else if line.len() == 2 {
        assert(line.drop_last().drop_last() == Seq::<SpanView>::empty());
        assert(reads(line.drop_last()) == line[0].text);
    } else if line.len() == 3 {
        let two = line.drop_last();
        assert(two.drop_last().drop_last() == Seq::<SpanView>::empty());
        assert(reads(two.drop_last()) == line[0].text);
        assert(reads(two) == line[0].text + line[1].text);
    }
}

/// The panel with the program's name tells the name and the system.
pub proof fn law_header_tells_name_and_system(height: u16, platform: Platform)
    ensures
        ({
            let panel = header_view(height, platform);
            let above = panel.lines.len() - 6;
            &&& above == top_padding(height, 6)
            &&& panel.title is None && panel.centered && panel.wrap == Wrapping::Keep
            &&& reads(panel.lines[above]) == "Limbus"@ + " "@ + "Company"@
            &&& reads(panel.lines[above + 2]) == "零協會文本正體中文化轉換工具"@
            &&& reads(panel.lines[above + 5]) == "系統偵測 : "@ + system_label(platform)
        }),
{
    let panel = header_view(height, platform);
    let above = panel.lines.len() - 6;
    lemma_reads(panel.lines[above]);
    lemma_reads(panel.lines[above + 2]);
    lemma_reads(panel.lines[above + 5]);
}

/// The panel with the dates shows each recorded date whole, and says of one that is
/// not recorded that it is not.
pub proof fn law_status_shows_the_dates(height: u16, app: AppView)
    ensures
        ({
            let panel = status_view(height, app);
            let above = panel.lines.len() - 3;
            let none = "尚未記錄"@;
            &&& above == top_padding(height, 3)
            &&& panel.title == Some(" Status "@) && panel.centered && panel.wrap == Wrapping::Keep
            &&& reads(panel.lines[above]) == "戰鬥氣泡更新日期 : "@ + (if app.config is Some
                && app.config->Some_0.voice_date() is Some {
                app.config->Some_0.voice_date()->Some_0
            } else {
                none
            })
            &&& reads(panel.lines[above + 2]) == "遊戲文本更新日期 : "@ + (if app.config is Some
                && app.config->Some_0.release_date() is Some {
                app.config->Some_0.release_date()->Some_0
            } else {
                none
            })
        }),
{
    let panel = status_view(height, app);
    let above = panel.lines.len() - 3;
    lemma_reads(panel.lines[above]);
    lemma_reads(panel.lines[above + 2]);
}

/// Each of the five steps is shown by its name, and marked as done, current or to
/// come by where the work is.
pub proof fn law_steps_are_marked(app: AppView, i: int)
    requires
        0 <= i < 5,
    ensures
        ({
            let line = steps_view(app).lines[0];
            let name = seq![
                "初始化"@,
                "版本檢查"@,
                "下載/解壓"@,
                "文字轉換"@,
                "語音同步"@,
            ][i];
            &&& steps_view(app).lines.len() == 1
            &&& line.len() == 9
            &&& i < app.step_index() ==> line[2 * i] == (SpanView {
                text: "● "@ + name,
                color: Some(Rgb { red: 16, green: 185, blue: 129 }),
                bold: true,
            })
            &&& i == app.step_index() ==> line[2 * i] == (SpanView {
                text: "◉ "@ + name,
                color: Some(Rgb { red: 245, green: 158, blue: 11 }),
                bold: true,
            })
            &&& i > app.step_index() ==> line[2 * i] == (SpanView {
                text: "○ "@ + name,
                color: Some(Rgb { red: 100, green: 116, blue: 139 }),
                bold: false,
            })
            &&& i < 4 ==> line[2 * i + 1].text == "  ─  "@
        }),
{
    let line = steps_view(app).lines[0];
    assert(line[0] == step_span(0, app.step_index() as int));
    assert(line[2] == step_span(1, app.step_index() as int));
    assert(line[4] == step_span(2, app.step_index() as int));
    assert(line[6] == step_span(3, app.step_index() as int));
    assert(line[8] == step_span(4, app.step_index() as int));
}

/// The panel with the providers names the owner and the repository of the settings,
/// each cut to thirty-six characters, and says where there are no settings.
pub proof fn law_info_names_the_providers(app: AppView)
    ensures
        ({
            let lines = info_view(app).lines;
            let (owner, name) = if app.config is Some {
                (app.config->Some_0.repo_owner, app.config->Some_0.repo_name)
            } else {
                ("設定讀取失敗"@, "-"@)
            };
            &&& lines.len() == 6
            &&& info_view(app).title == Some(" Provider "@)
            &&& reads(lines[0]) == "◆ 語音氣泡文本提供者"@
            &&& reads(lines[1]) == "  ├ "@ + "sipdetect"@
            &&& reads(lines[2]) == "  └ "@ + "LimbusDialogueBoxes_ZH"@
            &&& reads(lines[3]) == "◆ 翻譯來源提供者"@
            &&& reads(lines[4]) == "  ├ "@ + shortened(owner, 36)
            &&& reads(lines[5]) == "  └ "@ + shortened(name, 36)
        }),
{
    let lines = info_view(app).lines;
    lemma_reads(lines[0]);
    lemma_reads(lines[1]);
    lemma_reads(lines[2]);
    lemma_reads(lines[3]);
    lemma_reads(lines[4]);
    lemma_reads(lines[5]);
}

/// A line of the details reads the name of what it tells, in ten columns, and then
/// all of it.
pub proof fn law_detail_line_reads_its_value(label: Seq<char>, value: Seq<char>)
    ensures
        reads(kv(label, value)) == padded(label, 10) + " "@ + value,
        kv(label, value).len() == 2,
        kv(label, value)[1].text == value,
{
    lemma_reads(kv(label, value));
}

/// The details tell the current file, how many of how many files are done, and the
/// error, each by a dash where there is none, and then the folders of the output
/// and of the game, where there are any. A text is cut to forty-eight characters.
pub proof fn law_details_tell_the_work(app: AppView)
    ensures
        ({
            let lines = detail_view(app).lines;
            let output = app.game_info.output_path;
            let game = app.game_info.game_path;
            let behind = if output is Some {
                4int
            } else {
                3int
            };
            &&& detail_view(app).title == Some(" Details "@)
            &&& lines.len() == behind + (if game is Some {
                1int
            } else {
                0int
            })
            &&& lines[0] == kv(
                "目前檔案"@,
                if app.current_file is Some {
                    shortened(app.current_file->Some_0, 48)
                } else {
                    "-"@
                },
            )
            &&& lines[1] == kv(
                "處理進度"@,
                if app.processed_files is Some && app.total_files is Some {
                    decimal(app.processed_files->Some_0 as nat) + "/"@ + decimal(
                        app.total_files->Some_0 as nat,
                    )
                } else {
                    "-"@
                },
            )
            &&& lines[2] == kv(
                "錯誤"@,
                if app.error is Some {
                    shortened(app.error->Some_0, 48)
                } else {
                    "-"@
                },
            )
            &&& output is Some ==> lines[3] == kv("輸出目標"@, shortened(output->Some_0, 48))
            &&& game is Some ==> lines[behind] == kv("遊戲目錄"@, shortened(game->Some_0, 48))
        }),
{
}

/// Below stands how to leave the program behind a run that succeeded or failed, and
/// how to start a run otherwise.
pub proof fn law_footer_tells_the_key(app: AppView)
    ensures
        footer_view(app).lines.len() == 1,
        app.phase == Phase::Success || app.phase == Phase::Failed ==> reads(
            footer_view(app).lines[0],
        ) == "[按 Q 離開]"@,
        app.phase == Phase::Ready || app.phase == Phase::Running ==> reads(
            footer_view(app).lines[0],
        ) == "[按 S 開始轉換]"@,
{
    lemma_reads(footer_view(app).lines[0]);
}

/// The panel of the log shows the last lines of the log that are not scrolled past,
/// in order, each with its time, its mark and all of its message; its title tells
/// which lines they are, of how many.
pub proof fn law_log_panel_shows_the_lines(height: u16, app: AppView, k: int)
    ensures
        ({
            let panel = log_view(height, app);
            let total = app.logs.len() as int;
            let room = if height >= 2 {
                height - 2
            } else {
                0
            };
            let most = if total >= room {
                total - room
            } else {
                0
            };
            let back = if app.log_scroll <= most {
                app.log_scroll as int
            } else {
                most
            };
            let shown = panel.lines.len() as int;
            &&& shown == (if total <= room {
                total
            } else {
                room
            })
            &&& 0 <= k < shown ==> panel.lines[k] == log_line(app.logs[total - back - shown + k])
            &&& total > 0 ==> panel.title == Some(
                " Logs "@ + decimal((total - back - shown + 1) as nat) + "-"@ + decimal(
                    (total - back) as nat,
                ) + "/"@ + decimal(total as nat) + (if back > 0 {
                    " (↑"@ + decimal(back as nat) + ") "@
                } else {
                    " "@
                }),
            )
            &&& total == 0 ==> panel.title == Some(
                " Logs "@ + decimal(0) + "-"@ + decimal(0) + "/"@ + decimal(0) + " "@,
            )
        }),
{
    let panel = log_view(height, app);
    let back = scrolled(height, app);
    let total = app.logs.len();
    let range = " Logs "@ + decimal((first_shown(height, app) + 1) as nat) + "-"@ + decimal(
        behind_shown(height, app) as nat,
    ) + "/"@ + decimal(total);
    assert(range + " (↑"@ + decimal(back as nat) + ") "@ == range + (" (↑"@ + decimal(back as nat)
        + ") "@));
}

/// A line of the log reads its time in brackets, its mark and its message, whole;
/// the mark and the colour tell how much it matters.
pub proof fn law_log_line_reads_its_entry(entry: LogView)
    ensures
        ({
            let line = log_line(entry);
            let (mark, red, green, blue) = match entry.level {
                LogLevel::Info => ("•"@, 148u8, 163u8, 184u8),
                LogLevel::Success => ("✓"@, 16u8, 185u8, 129u8),
                LogLevel::Warn => ("⚠"@, 245u8, 158u8, 11u8),
                LogLevel::Error => ("✗"@, 239u8, 68u8, 68u8),
            };
            &&& line.len() == 3
            &&& line[0].text == "["@ + entry.timestamp + "] "@
            &&& line[1].text == mark + " "@
            &&& line[1].color == Some(Rgb { red, green, blue }) && line[1].bold
            &&& line[2].text == entry.message
            &&& line[2].color == Some(Rgb { red, green, blue }) && !line[2].bold
        }),
{
}

/// What is said of a panel's characters is said of all of it.
pub proof fn law_panel_is_seen_whole(panel: Panel, line: Line, span: Span)
    ensures
        panel@.title == crate::text::opt_text(panel.title),
        panel@.lines.len() == panel.lines@.len(),
        forall|i: int|
            0 <= i < panel.lines@.len() ==> (#[trigger] panel@.lines[i]) == panel.lines@[i]@,
        panel@.centered == panel.centered,
        panel@.wrap == panel.wrap,
        line@.len() == line.spans@.len(),
        forall|i: int| 0 <= i < line.spans@.len() ==> (#[trigger] line@[i]) == line.spans@[i]@,
        span@.text == span.text@,
        span@.color == span.color,
        span@.bold == span.bold,
{
}

/// Dates are shown where the settings' dates can be read, or there are none.
pub proof fn law_dates_are_shown_where_readable(app: AppView)
    ensures
        app.config is None ==> dates_can_be_shown(app),
        app.config matches Some(config) ==> (dates_can_be_shown(app)
            <==> config.release_date_readable() && config.voice_date_readable()),
{
}

} // verus!
