use lzcr::convert::{convert_file, read_text, Conversion};
use lzcr::error::AppError;
use lzcr::progress::Progress;

/// The whole percents of a progress, a hundred at most.
fn percent(progress: &Progress) -> u64 {
    (1..=100u32).take_while(|p| progress.reaches(10 * p)).count() as u64
}

#[test]
fn texts_become_traditional_chinese() {
    let text = "鼠标里面的硅二极管坏了，导致光标分辨率降低。";
    assert_eq!(
        convert_file(text.as_bytes().to_vec()),
        "滑鼠裡面的矽二極體壞了，導致游標解析度降低。"
    );
    assert_eq!(convert_file(b"{\"id\": 1}".to_vec()), "{\"id\": 1}");
    assert_eq!(convert_file(vec![]), "");
}

#[test]
fn utf8_is_read_as_written() {
    for text in ["", "plain", "导致 é \u{10ffff}"] {
        assert_eq!(read_text(text.as_bytes().to_vec()), text);
    }
}

#[test]
fn other_bytes_are_read_as_far_as_possible() {
    assert_eq!(read_text(b"a\xffb".to_vec()), "a\u{fffd}b");
    assert_eq!(convert_file(b"\xe5\xaf\xbc\xff".to_vec()), "導\u{fffd}");
}

fn files(n: usize) -> Vec<String> {
    (0..n).map(|i| format!("{i}.json")).collect()
}

fn failed(i: usize) -> Result<(), AppError> {
    Err(AppError::Io(format!("file {i}")))
}

#[test]
fn files_are_converted_in_order() {
    let (mut c, told) = Conversion::process_files(vec!["a/b.json".to_string(), "c.json".to_string()]);
    assert_eq!((told.message.as_str(), percent(&told.progress)), ("Starting file conversion...", 60));
    assert_eq!((told.current_file, told.total_files, told.processed_files), (None, Some(2), Some(0)));

    assert_eq!(c.current().as_deref(), Some("a/b.json"));
    let told = c.announce(Some(false), "b.json").unwrap();
    assert_eq!(told.message, "Converting... 1 / 2 files");
    assert_eq!(told.progress, Progress { base_tenths: 600, span_tenths: 300, done: 0, total: 2 });
    assert_eq!((told.current_file.as_deref(), told.total_files, told.processed_files), (Some("b.json"), Some(2), Some(1)));
    assert_eq!(c.announce(Some(true), "b.json").unwrap_err().message(), "Other error: Conversion cancelled by user");
    assert!(c.record(Ok(())).is_ok());

    assert_eq!(c.current().as_deref(), Some("c.json"));
    let told = c.announce(None, "c.json").unwrap();
    assert_eq!((told.message.as_str(), percent(&told.progress)), ("Converting... 2 / 2 files", 75));
    assert!(c.record(failed(1)).is_ok());

    assert_eq!(c.current(), None);
    let told = c.finish();
    assert_eq!((told.message.as_str(), percent(&told.progress)), ("File conversion complete!", 90));
    assert_eq!((told.total_files, told.processed_files), (Some(2), Some(2)));
}

#[test]
fn ten_files_may_fail() {
    let (mut c, _) = Conversion::process_files(files(20));
    for i in 0..10 {
        assert!(c.record(failed(i)).is_ok());
    }
    assert!(c.record(Ok(())).is_ok());
    assert_eq!(c.record(failed(11)).unwrap_err().message(), "File I/O error: file 11");
}

#[test]
fn no_files_are_no_failure() {
    let (c, told) = Conversion::process_files(vec![]);
    assert_eq!((told.total_files, told.processed_files), (Some(0), Some(0)));
    assert_eq!(c.current(), None);
    assert_eq!(c.finish().total_files, Some(0));
}
