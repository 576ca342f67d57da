use lzcr::error::AppError;
use lzcr::progress::Progress;
use lzcr::release::Reply;
use lzcr::voice::{
    checked_file, commits_url, contents_url, date_to_record, get_voice_latest_update_date, list_voice_files,
    RepoContentItem, VoiceCleanup, VoiceDownload, VoiceFile,
};
use lzcr::voice_sync::{SyncAnswer, SyncAsk, VoiceSync};

fn item(name: &str, item_type: &str, url: Option<&str>) -> RepoContentItem {
    RepoContentItem {
        name: name.to_string(),
        download_url: url.map(|u| u.to_string()),
        item_type: item_type.to_string(),
    }
}

fn listed(entries: Vec<RepoContentItem>) -> Vec<(String, Option<String>)> {
    list_voice_files(entries).into_iter().map(|e| (e.name, e.download_url)).collect()
}

fn refused<T>() -> Reply<T> {
    Reply::Refused { status: "404 Not Found".to_string(), body: None }
}

#[test]
fn urls() {
    assert_eq!(contents_url(), "https://api.github.com/repos/sipdetect/LimbusDialogueBoxes_ZH/contents");
    assert_eq!(commits_url(), "https://api.github.com/repos/sipdetect/LimbusDialogueBoxes_ZH/commits?per_page=1");
}

#[test]
fn json_files_are_listed_by_name() {
    let entries = vec![
        item("b.json", "file", Some("b1")),
        item("README.md", "file", Some("r")),
        item("c.json", "dir", None),
        item("a.json", "file", Some("a")),
        item("b.json", "file", Some("b2")),
        item("B.json", "file", None),
    ];
    let expected: Vec<(String, Option<String>)> =
        [("B.json", None), ("a.json", Some("a")), ("b.json", Some("b1")), ("b.json", Some("b2"))]
            .iter()
            .map(|(n, u)| (n.to_string(), u.map(|u| u.to_string())))
            .collect();
    assert_eq!(listed(entries), expected);
    assert_eq!(listed(vec![]), vec![]);
}

#[test]
fn the_list_is_sorted_as_in_std() {
    let names = ["z.json", "語.json", "a-b.json", "a.json", "é.json", "A.json", "a.json", "10.json", "9.json"];
    let entries = names.iter().enumerate().map(|(i, n)| item(n, "file", Some(&i.to_string()))).collect();
    let mut expected: Vec<(String, Option<String>)> =
        names.iter().enumerate().map(|(i, n)| (n.to_string(), Some(i.to_string()))).collect();
    expected.sort_by(|a, b| a.0.cmp(&b.0));
    assert_eq!(listed(entries), expected);
}

#[test]
fn failed_lists_are_told() {
    let e = |r: Reply<Vec<RepoContentItem>>| VoiceDownload::download_voice_files(r).unwrap_err().message();
    assert_eq!(e(Reply::Unreachable("dns".to_string())), "Network error: dns");
    assert_eq!(e(refused()), "Other error: Failed to fetch voice repo file list: 404 Not Found");
    assert_eq!(e(Reply::Malformed("eof".to_string())), "Other error: Failed to parse voice repo file list: eof");
    let none = "Other error: No JSON files found in voice repo sipdetect/LimbusDialogueBoxes_ZH";
    assert_eq!(e(Reply::Received(vec![])), none);
    assert_eq!(e(Reply::Received(vec![item("a.txt", "file", None)])), none);
}

fn two() -> VoiceDownload {
    let entries = vec![item("b.json", "file", None), item("a.json", "file", Some("https://a"))];
    VoiceDownload::download_voice_files(Reply::Received(entries)).unwrap()
}

#[test]
fn voice_files_are_downloaded_one_by_one() {
    let mut d = two();
    assert_eq!(d.request(Some(true)).unwrap_err().message(), "Other error: Conversion cancelled by user");
    let (url, told) = d.request(None).unwrap().unwrap();
    assert_eq!(url, "https://a");
    assert_eq!(told.message, "Downloading voice file a.json (1/2)");
    assert_eq!(told.progress, Progress { base_tenths: 991, span_tenths: 4, done: 0, total: 2 });
    assert_eq!((told.current_file.as_deref(), told.total_files, told.processed_files), (Some("a.json"), Some(2), Some(1)));
    assert!(d.receive(Reply::Received(b"[1, 2]".to_vec())).is_ok());
    assert_eq!(d.request(None).unwrap_err().message(), "Other error: Missing download_url for file b.json");
    assert!(d.receive(Reply::Received(b"{}".to_vec())).is_ok());
    assert!(d.request(Some(true)).unwrap().is_none());
    assert!(d.complete());
    let files = d.finish();
    assert_eq!(files.len(), 2);
    assert_eq!((files[0].name.as_str(), files[0].content.as_slice()), ("a.json", b"[1, 2]".as_slice()));
}

#[test]
fn failed_voice_files_are_told() {
    let e = |r: Reply<Vec<u8>>| two().receive(r).unwrap_err().message();
    assert_eq!(e(Reply::Unreachable("dns".to_string())), "Network error: dns");
    assert_eq!(e(Reply::Malformed("cut".to_string())), "Network error: cut");
    assert_eq!(e(refused()), "Other error: Failed to download voice file a.json: 404 Not Found");
    assert_eq!(
        e(Reply::Received(b"{".to_vec())),
        "Other error: Voice file a.json is not valid JSON: EOF while parsing an object at line 1 column 1"
    );
    assert!(e(Reply::Received(b"{} x".to_vec())).starts_with("Other error: Voice file a.json is not valid JSON: "));
}

#[test]
fn only_json_is_kept() {
    let file = checked_file("a", b"x".to_vec(), None).unwrap();
    assert_eq!((file.name.as_str(), file.content.as_slice()), ("a", b"x".as_slice()));
    assert_eq!(
        checked_file("a", vec![], Some("bad".to_string())).unwrap_err().message(),
        "Other error: Voice file a is not valid JSON: bad"
    );
}

#[test]
fn the_latest_change_has_a_date() {
    let date = |stamps: Vec<&str>| {
        get_voice_latest_update_date(Reply::Received(stamps.iter().map(|s| s.to_string()).collect())).unwrap()
    };
    assert_eq!(date(vec!["2024-02-03T04:05:06Z", "2020-01-01T00:00:00Z"]).as_deref(), Some("2024-02-03"));
    assert_eq!(date(vec![]), None);
    assert_eq!(date(vec!["yesterday"]), None);
    let e = |r: Reply<Vec<String>>| get_voice_latest_update_date(r).unwrap_err().message();
    assert_eq!(e(Reply::Unreachable("dns".to_string())), "Network error: dns");
    assert_eq!(e(refused()), "Other error: Failed to fetch voice repo commits: 404 Not Found");
    assert_eq!(e(Reply::Malformed("eof".to_string())), "Other error: Failed to parse voice repo commits: eof");
    assert_eq!(date_to_record(Ok(Some("2024-02-03".to_string()))).as_deref(), Some("2024-02-03"));
    assert_eq!(date_to_record(Ok(None)), None);
    assert_eq!(date_to_record(Err(AppError::Network("dns".to_string()))), None);
}

fn two_files() -> Vec<VoiceFile> {
    ["a.json", "b.json"].iter().map(|n| VoiceFile { name: n.to_string(), content: b"{}".to_vec() }).collect()
}

const OLD: [&str; 3] =
    ["BattleSpeechBubbleDlg.json", "BattleSpeechBubbleDlg_Cultivation.json", "BattleSpeechBubbleDlg_mowe.json"];

#[test]
fn old_files_go_only_after_a_download() {
    let failed = VoiceCleanup::after_download(Err(AppError::Network("dns".to_string())));
    assert_eq!(failed.unwrap_err().message(), "Network error: dns");
    let mut c = VoiceCleanup::after_download(Ok(two_files())).unwrap();
    for name in OLD {
        assert_eq!(c.current().as_deref(), Some(name));
        assert_eq!(
            c.cleanup_old_voice_files(Err("busy".to_string())).unwrap_err().message(),
            format!("Other error: Failed to remove old voice file {name}: busy")
        );
        assert!(c.cleanup_old_voice_files(Ok(())).is_ok());
    }
    assert_eq!(c.current(), None);
    assert_eq!(c.finish().current(None).unwrap().unwrap().name, "a.json");
}

#[test]
fn voice_files_are_installed_one_by_one() {
    let mut c = VoiceCleanup::after_download(Ok(two_files())).unwrap();
    for _ in OLD {
        c.cleanup_old_voice_files(Ok(())).unwrap();
    }
    let mut v = c.finish();
    assert_eq!(v.current(Some(true)).unwrap_err().message(), "Other error: Conversion cancelled by user");
    let told = v.file_written(Ok(())).unwrap();
    assert_eq!(told.message, "Installed voice file a.json (1/2)");
    assert_eq!(told.progress, Progress { base_tenths: 996, span_tenths: 3, done: 0, total: 2 });
    assert_eq!(
        v.file_written(Err("full".to_string())).unwrap_err().message(),
        "Other error: Failed to write voice file b.json: full"
    );
    assert_eq!(v.current(Some(false)).unwrap().unwrap().name, "b.json");
    assert_eq!(v.file_written(Ok(())).unwrap().message, "Installed voice file b.json (2/2)");
    assert!(v.current(Some(true)).unwrap().is_none());
}

/// Does the work on two files; what was done, what was told, and the outcome.
/// What is done at `fail` fails.
fn sync(fail: Option<&str>) -> (Vec<String>, Vec<String>, Result<Option<String>, String>) {
    let mut done = vec![];
    let mut told = vec![];
    let mut work = VoiceSync::copy_voice_files();
    loop {
        let (what, answer) = match work.ask(Some(false)) {
            Err(e) => return (done, told, Err(e.message())),
            Ok(SyncAsk::Finished) => return (done, told, Ok(work.finish())),
            Ok(SyncAsk::MakeFolder) => {
                let made = if fail == Some("folder") { Err("full".to_string()) } else { Ok(()) };
                ("folder".to_string(), SyncAnswer::Folder(made))
            }
            Ok(SyncAsk::AskDate) => {
                let date = if fail == Some("date") {
                    Err(AppError::Network("dns".to_string()))
                } else {
                    Ok(Some("2024-01-02".to_string()))
                };
                ("date".to_string(), SyncAnswer::Date(date))
            }
            Ok(SyncAsk::AskList) => {
                let entries = vec![item("b.json", "file", Some("b")), item("a.json", "file", Some("a"))];
                let reply = if fail == Some("list") { refused() } else { Reply::Received(entries) };
                ("list".to_string(), SyncAnswer::List(reply))
            }
            Ok(SyncAsk::Get { url, update }) => {
                told.push(update.message);
                let reply = if fail == Some(url.as_str()) { refused() } else { Reply::Received(b"[]".to_vec()) };
                (format!("get {url}"), SyncAnswer::File(reply))
            }
            Ok(SyncAsk::Remove(name)) => {
                let removed = if fail == Some(name.as_str()) { Err("busy".to_string()) } else { Ok(()) };
                (format!("remove {name}"), SyncAnswer::Removed(removed))
            }
            Ok(SyncAsk::Write(file)) => {
                assert_eq!(file.content, b"[]");
                let written = if fail == Some(file.name.as_str()) { Err("full".to_string()) } else { Ok(()) };
                (format!("write {}", file.name), SyncAnswer::Written(written))
            }
        };
        done.push(what);
        match work.answer(answer) {
            Err(e) => return (done, told, Err(e.message())),
            Ok((next, update)) => {
                work = next;
                told.extend(update.map(|u| u.message));
            }
        }
    }
}

#[test]
fn voice_files_are_brought_up_to_date_in_order() {
    let (done, told, outcome) = sync(None);
    let mut expected: Vec<String> = ["folder", "date", "list", "get a", "get b"].iter().map(|s| s.to_string()).collect();
    expected.extend(OLD.iter().map(|n| format!("remove {n}")));
    expected.extend(["write a.json".to_string(), "write b.json".to_string()]);
    assert_eq!(done, expected);
    assert_eq!(
        told,
        vec![
            "Downloading voice file a.json (1/2)",
            "Downloading voice file b.json (2/2)",
            "Installed voice file a.json (1/2)",
            "Installed voice file b.json (2/2)",
        ]
    );
    assert_eq!(outcome, Ok(Some("2024-01-02".to_string())));
    assert_eq!(sync(Some("date")).2, Ok(None));
}

#[test]
fn a_failed_download_removes_and_writes_nothing() {
    for (fail, message) in [
        ("folder", "Other error: Failed to create LLC_zh-Hant directory: full"),
        ("list", "Other error: Failed to fetch voice repo file list: 404 Not Found"),
        ("a", "Other error: Failed to download voice file a.json: 404 Not Found"),
        ("b", "Other error: Failed to download voice file b.json: 404 Not Found"),
    ] {
        let (done, _, outcome) = sync(Some(fail));
        assert_eq!(outcome, Err(message.to_string()));
        assert!(done.iter().all(|d| !d.starts_with("remove") && !d.starts_with("write")));
    }
    let (done, _, outcome) = sync(Some(OLD[2]));
    assert_eq!(outcome, Err(format!("Other error: Failed to remove old voice file {}: busy", OLD[2])));
    assert!(done.iter().all(|d| !d.starts_with("write")));
    let (_, _, outcome) = sync(Some("b.json"));
    assert_eq!(outcome, Err("Other error: Failed to write voice file b.json: full".to_string()));
}

#[test]
fn work_on_voice_files_stops_when_told() {
    let work = VoiceSync::copy_voice_files();
    assert!(matches!(work.ask(Some(true)), Ok(SyncAsk::MakeFolder)));
    let (work, _) = work.answer(SyncAnswer::Folder(Ok(()))).unwrap();
    assert!(matches!(work.ask(Some(true)), Ok(SyncAsk::AskDate)));
    let (work, _) = work.answer(SyncAnswer::Date(Ok(None))).unwrap();
    assert_eq!(work.ask(Some(true)).unwrap_err().message(), "Other error: Conversion cancelled by user");
}
