use lzcr::config::Config;
use lzcr::error::AppError;
use lzcr::layout::{arrange, draw_ui, left_sizes, right_sizes, root_sizes, side_sizes, Area, Size};
use lzcr::progress::{fixed, Progress, ProgressUpdate};
use lzcr::steam_registry::{detect_game_path_info, Platform};
use lzcr::tui::{Action, App, Key, KeyKind, LogLevel, Phase, WorkerEvent};
use lzcr::view::{
    border_color, can_show_dates, ellipsize, kv_line, render_detail_panel, render_footer, render_header,
    render_info_panel, render_log_panel, render_status_panel, render_steps_panel, translation_provider_parts, Line,
    Panel, Rgb, Wrapping,
};

const NOW: &str = "12:34:56";

fn app() -> App {
    App::new(NOW, detect_game_path_info(None), Ok(Config::default(None)))
}

fn told(tenths: u32, message: &str) -> WorkerEvent {
    WorkerEvent::Progress(ProgressUpdate {
        progress: fixed(tenths),
        message: message.to_string(),
        current_file: Some("a.json".to_string()),
        total_files: Some(7),
        processed_files: Some(3),
    })
}

fn last(app: &App) -> (LogLevel, String) {
    let entry = app.logs.back().unwrap();
    (entry.level, entry.message.clone())
}

fn text(line: &Line) -> String {
    line.spans.iter().map(|s| s.text.as_str()).collect()
}

fn texts(panel: &Panel) -> Vec<String> {
    panel.lines.iter().map(text).collect()
}

fn press(app: &mut App, key: Key) -> Action {
    app.handle_key(NOW, KeyKind::Press, key)
}

#[test]
fn the_program_starts_ready() {
    let a = app();
    assert_eq!(a.phase, Phase::Ready);
    assert_eq!(a.message, "按 S 開始轉換，按 Q 離開");
    let lines: Vec<(LogLevel, &str)> = a.logs.iter().map(|l| (l.level, l.message.as_str())).collect();
    assert_eq!(
        lines,
        vec![
            (LogLevel::Info, "設定檔已載入"),
            (LogLevel::Warn, "找不到 Limbus Company 路徑，將使用預設輸出資料夾"),
            (LogLevel::Info, "TUI 已就緒，可開始執行轉換"),
        ]
    );
    assert_eq!(a.logs[0].timestamp, NOW);
    let found = detect_game_path_info(Some(("/g".to_string(), "/o".to_string())));
    let a = App::new(NOW, found, Err(AppError::Io("denied".to_string())));
    assert_eq!(a.phase, Phase::Failed);
    assert_eq!(a.error.as_deref(), Some("File I/O error: denied"));
    assert_eq!(a.logs[0].message, "設定檔載入失敗: File I/O error: denied");
    assert_eq!(a.logs[1].message, "已偵測到 Limbus Company 安裝路徑");
}

#[test]
fn the_log_holds_the_latest_lines() {
    let mut a = app();
    for i in 0..300 {
        a.push_log(NOW, LogLevel::Info, &i.to_string());
    }
    assert_eq!(a.logs.len(), 250);
    assert_eq!(a.logs.front().unwrap().message, "50");
    assert_eq!(a.logs.back().unwrap().message, "299");
}

#[test]
fn keys_start_stop_and_leave() {
    let mut a = app();
    assert_eq!(a.handle_key(NOW, KeyKind::Release, Key::Char('s')), Action::Nothing);
    assert_eq!(press(&mut a, Key::Other), Action::Nothing);
    assert_eq!(press(&mut a, Key::Char('x')), Action::Nothing);
    assert_eq!(last(&a), (LogLevel::Warn, "目前沒有進行中的轉換".to_string()));
    assert_eq!(press(&mut a, Key::Char('r')), Action::Refresh);
    assert_eq!(a.handle_key(NOW, KeyKind::Repeat, Key::Char('s')), Action::StartWorker);
    assert!(a.running());
    assert_eq!((a.progress, a.message.as_str()), (fixed(0), "啟動轉換工作..."));
    assert_eq!(press(&mut a, Key::Char('s')), Action::Nothing);
    assert_eq!(last(&a), (LogLevel::Warn, "轉換已在執行中".to_string()));
    for key in [Key::Char('q'), Key::Esc, Key::Char('x')] {
        assert_eq!(press(&mut a, key), Action::StopWorker);
        assert!(!a.should_quit);
        assert_eq!(a.message, "正在取消轉換...");
        assert_eq!(last(&a), (LogLevel::Warn, "已送出取消請求，等待安全停止...".to_string()));
    }
    assert!(!a.handle_worker_event(NOW, WorkerEvent::Finished(Err("Other error: x".to_string()))));
    assert_eq!(press(&mut a, Key::Esc), Action::Nothing);
    assert!(a.should_quit);
    assert_eq!(press(&mut a, Key::Char('Q')), Action::Nothing);
}

#[test]
fn the_worker_is_heard() {
    let mut a = app();
    assert!(a.start_conversion(NOW));
    let lines = a.logs.len();
    assert!(!a.handle_worker_event(NOW, told(450, "Extracting files...")));
    assert_eq!((a.progress, a.message.as_str()), (fixed(450), "Extracting files..."));
    assert_eq!((a.current_file.as_deref(), a.total_files, a.processed_files), (Some("a.json"), Some(7), Some(3)));
    a.handle_worker_event(NOW, told(460, "Extracting files..."));
    assert_eq!((a.progress, a.logs.len()), (fixed(460), lines + 1));
    a.handle_worker_event(NOW, told(470, "other"));
    assert_eq!(a.logs.len(), lines + 2);

    let progress = Progress { base_tenths: 991, span_tenths: 4, done: 1, total: 3 };
    let update = |progress| ProgressUpdate {
        progress,
        message: "other".to_string(),
        current_file: None,
        total_files: None,
        processed_files: None,
    };
    a.handle_worker_event(NOW, WorkerEvent::Progress(update(progress)));
    assert_eq!(a.progress, progress);
    a.handle_worker_event(NOW, WorkerEvent::Progress(update(fixed(1200))));
    assert_eq!(a.progress, fixed(1000));

    assert!(a.handle_worker_event(NOW, WorkerEvent::Finished(Ok(()))));
    assert_eq!((a.phase, a.progress, a.message.as_str()), (Phase::Success, fixed(1000), "轉換完成"));
    assert_eq!(last(&a), (LogLevel::Success, "轉換成功完成".to_string()));
    assert!(!a.cancellable);
}

#[test]
fn a_cancelled_run_is_no_failure() {
    let mut a = app();
    a.start_conversion(NOW);
    let error = lzcr::release::check_cancelled(Some(true)).unwrap_err().message();
    a.handle_worker_event(NOW, WorkerEvent::Finished(Err(error)));
    assert_eq!((a.phase, a.progress, a.error.clone()), (Phase::Ready, fixed(0), None));
    assert_eq!(last(&a), (LogLevel::Warn, "轉換已取消".to_string()));

    a.start_conversion(NOW);
    a.handle_worker_event(NOW, WorkerEvent::Finished(Err("Network error: dns".to_string())));
    assert_eq!((a.phase, a.error.as_deref()), (Phase::Failed, Some("Network error: dns")));
    assert_eq!(last(&a), (LogLevel::Error, "轉換失敗: Network error: dns".to_string()));
}

#[test]
fn refreshing_takes_settings_and_place() {
    let mut a = app();
    let found = detect_game_path_info(Some(("/g".to_string(), "/o".to_string())));
    a.refresh(NOW, Err(AppError::Json("eof".to_string())), found);
    assert_eq!(a.phase, Phase::Failed);
    assert!(a.config.is_none() && a.game_info.found);
    assert_eq!(last(&a), (LogLevel::Info, "已重新載入設定與路徑資訊".to_string()));
    a.reload_config(NOW, Ok(Config::default(None)));
    assert!(a.config.is_some());
}

#[test]
fn steps_follow_progress() {
    let mut a = app();
    a.start_conversion(NOW);
    let mut shown = vec![];
    for tenths in [0, 99, 100, 399, 400, 599, 600, 989, 990, 1000] {
        a.handle_worker_event(NOW, told(tenths, "x"));
        shown.push(a.current_step_index());
    }
    assert_eq!(shown, vec![0, 0, 1, 1, 2, 2, 3, 3, 4, 4]);
    a.handle_worker_event(NOW, told(450, "x"));
    let panel = render_steps_panel(&a);
    assert_eq!(panel.title.as_deref(), Some(" Pipeline "));
    assert_eq!(texts(&panel), vec!["● 初始化  ─  ● 版本檢查  ─  ◉ 下載/解壓  ─  ○ 文字轉換  ─  ○ 語音同步"]);
    assert!(panel.lines[0].spans[4].bold && !panel.lines[0].spans[6].bold);
    assert_eq!(panel.lines[0].spans[4].color, Some(Rgb { red: 245, green: 158, blue: 11 }));
    a.handle_worker_event(NOW, WorkerEvent::Finished(Ok(())));
    assert_eq!(a.current_step_index(), 4);
}

#[test]
fn long_texts_are_cut_in_front() {
    assert_eq!(ellipsize("abcdef", 6), "abcdef");
    assert_eq!(ellipsize("abcdefg", 6), "...efg");
    assert_eq!(ellipsize("零一二三四五六", 5), "...五六");
    assert_eq!(ellipsize("abcdef", 3), "...");
    assert_eq!(ellipsize("abcdef", 0), "...");
    assert_eq!(ellipsize("", 0), "");
}

#[test]
fn the_header_stands_in_the_middle() {
    let panel = render_header(10, Platform::Linux);
    assert_eq!(
        texts(&panel),
        vec!["", "Limbus Company", "", "零協會文本正體中文化轉換工具", "", "", "系統偵測 : 🐧 Linux"]
    );
    assert_eq!((panel.title, panel.centered, panel.wrap), (None, true, Wrapping::Keep));
    assert_eq!(render_header(0, Platform::Windows).lines.len(), 6);
    assert_eq!(render_header(20, Platform::Windows).lines.len(), 12);
    assert_eq!(border_color(), Rgb { red: 51, green: 65, blue: 85 });
}

#[test]
fn the_status_shows_dates() {
    let mut a = app();
    assert!(can_show_dates(&a));
    assert_eq!(
        texts(&render_status_panel(6, &a)),
        vec!["戰鬥氣泡更新日期 : 尚未記錄", "", "遊戲文本更新日期 : 尚未記錄"]
    );
    let mut config = Config::default(None);
    config.last_release_tag = Some("20240506".to_string());
    config.last_voice_update_date = Some("2024-01-02".to_string());
    a.config = Some(config);
    assert_eq!(
        texts(&render_status_panel(7, &a)),
        vec!["", "戰鬥氣泡更新日期 : 2024-01-02", "", "遊戲文本更新日期 : 2024-05-06"]
    );
    a.config = None;
    assert_eq!(render_status_panel(3, &a).lines.len(), 3);
    let mut config = Config::default(None);
    config.last_release_date = Some("語語語語".to_string());
    a.config = Some(config);
    assert!(!can_show_dates(&a));
}

#[test]
fn providers_are_shown() {
    let mut a = app();
    assert_eq!(
        texts(&render_info_panel(&a)),
        vec![
            "◆ 語音氣泡文本提供者",
            "  ├ sipdetect",
            "  └ LimbusDialogueBoxes_ZH",
            "◆ 翻譯來源提供者",
            "  ├ LocalizeLimbusCompany",
            "  └ LocalizeLimbusCompany",
        ]
    );
    a.config = None;
    assert_eq!(translation_provider_parts(&a), ("設定讀取失敗".to_string(), "-".to_string()));
}

#[test]
fn details_are_shown() {
    let mut a = app();
    assert_eq!(texts(&render_detail_panel(&a)), vec!["目前檔案       -", "處理進度       -", "錯誤         -"]);
    a.start_conversion(NOW);
    a.handle_worker_event(NOW, told(450, "x"));
    a.error = Some("e".repeat(50));
    a.game_info = detect_game_path_info(Some(("/g".to_string(), "/o".to_string())));
    assert_eq!(
        texts(&render_detail_panel(&a)),
        vec![
            "目前檔案       a.json".to_string(),
            "處理進度       3/7".to_string(),
            format!("錯誤         ...{}", "e".repeat(45)),
            "輸出目標       /o".to_string(),
            "遊戲目錄       /g".to_string(),
        ]
    );
    let line = kv_line("錯誤", "x");
    assert_eq!(line.spans[0].text, format!("{:<10} ", "錯誤"));
    assert!(line.spans[0].bold && !line.spans[1].bold);
}

#[test]
fn the_footer_names_the_key() {
    let mut a = app();
    assert_eq!(texts(&render_footer(&a)), vec!["[按 S 開始轉換]"]);
    a.phase = Phase::Failed;
    assert_eq!(texts(&render_footer(&a)), vec!["[按 Q 離開]"]);
    a.phase = Phase::Success;
    assert_eq!(texts(&render_footer(&a)), vec!["[按 Q 離開]"]);
}

#[test]
fn the_log_panel_shows_the_latest_lines() {
    let mut a = app();
    a.logs.clear();
    let panel = render_log_panel(5, &a);
    assert_eq!((panel.title.as_deref(), panel.lines.len()), (Some(" Logs 0-0/0 "), 0));
    for (i, level) in [LogLevel::Info, LogLevel::Success, LogLevel::Warn, LogLevel::Error].iter().enumerate() {
        a.push_log(NOW, *level, &format!("line {i}"));
    }
    let panel = render_log_panel(5, &a);
    assert_eq!(panel.title.as_deref(), Some(" Logs 2-4/4 "));
    assert_eq!(
        texts(&panel),
        vec!["[12:34:56] ✓ line 1", "[12:34:56] ⚠ line 2", "[12:34:56] ✗ line 3"]
    );
    assert_eq!(panel.lines[2].spans[2].color, Some(Rgb { red: 239, green: 68, blue: 68 }));
    a.log_scroll = 99;
    let panel = render_log_panel(5, &a);
    assert_eq!(panel.title.as_deref(), Some(" Logs 1-3/4 (↑1) "));
    assert_eq!(texts(&panel)[0], "[12:34:56] • line 0");
    assert_eq!(render_log_panel(40, &a).title.as_deref(), Some(" Logs 1-4/4 "));
    assert_eq!(render_log_panel(1, &a).lines.len(), 0);
}

#[test]
fn panels_have_their_places() {
    let area = |x, y, width, height| Area { x, y, width, height };
    let s = draw_ui(area(0, 0, 120, 40));
    assert_eq!(s.footer, area(0, 37, 120, 3));
    assert_eq!(s.header, area(0, 0, 46, 10));
    assert_eq!(s.status, area(0, 10, 46, 6));
    assert_eq!(s.steps, area(0, 16, 46, 3));
    assert_eq!(s.info, area(0, 19, 46, 18));
    assert_eq!(s.log, area(47, 0, 73, 29));
    assert_eq!(s.detail, area(47, 29, 73, 8));
    let part = |i| area(i, 0, 1, 1);
    let s = arrange(
        &vec![part(0), part(1)],
        &vec![part(2), part(3), part(4), part(5)],
        &vec![part(6), part(7)],
    );
    assert_eq!((s.header, s.status, s.steps, s.info), (part(2), part(3), part(4), part(5)));
    assert_eq!((s.log, s.detail, s.footer), (part(6), part(7), part(1)));
    let tiny = draw_ui(area(0, 0, 0, 0));
    assert_eq!((tiny.footer.width, tiny.log.height), (0, 0));
    assert_eq!(root_sizes(), vec![Size::Min(20), Size::Length(3)]);
    assert_eq!(side_sizes(), vec![Size::Length(46), Size::Length(1), Size::Min(20)]);
    assert_eq!(left_sizes()[3], Size::Min(8));
    assert_eq!(right_sizes(), vec![Size::Min(8), Size::Length(8)]);
}
