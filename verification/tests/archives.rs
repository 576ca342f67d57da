use lzcr::archive::{relative_entry_path, target_folder, ExtractStep, Extraction, OpenArchive};
use lzcr::progress::Progress;
use std::io::Write;

/// The whole percents of a progress, a hundred at most.
fn percent(progress: &Progress) -> u64 {
    (1..=100u32).take_while(|p| progress.reaches(10 * p)).count() as u64
}

fn archive(entries: &[(&str, &str)]) -> Vec<u8> {
    let mut writer = zip::ZipWriter::new(std::io::Cursor::new(Vec::new()));
    let options = zip::write::SimpleFileOptions::default().compression_method(zip::CompressionMethod::Stored);
    for (name, content) in entries {
        if name.ends_with('/') {
            writer.add_directory(*name, options).unwrap();
        } else {
            writer.start_file(*name, options).unwrap();
            writer.write_all(content.as_bytes()).unwrap();
        }
    }
    writer.finish().unwrap().into_inner()
}

fn begin(data: Vec<u8>) -> Extraction {
    OpenArchive::open(data).unwrap().extract_files("Lang/LLC_zh-CN").unwrap()
}

fn walk(mut walk: Extraction) -> Vec<(String, String)> {
    let mut out = vec![];
    loop {
        match walk.step(None).unwrap() {
            ExtractStep::Finished => return out,
            ExtractStep::Skip => {}
            ExtractStep::Write { path, content } => {
                out.push((path, String::from_utf8(content).unwrap()));
                walk.written(true);
            }
        }
    }
}

fn names(found: &[(String, String)]) -> Vec<&str> {
    found.iter().map(|(n, _)| n.as_str()).collect()
}

#[test]
fn entries_are_picked_by_name() {
    let at = |name: &str| relative_entry_path(name, "r/Lang");
    assert_eq!(at("r/Lang/a.json"), Some("a.json".to_string()));
    assert_eq!(at("r/Lang/x/a.json"), Some("x/a.json".to_string()));
    assert_eq!(at("r/Language/a.json"), Some("uage/a.json".to_string()));
    assert_eq!(at("r/Lang.json"), Some(".json".to_string()));
    assert_eq!(at("r/Lang//a.json"), Some("/a.json".to_string()));
    assert_eq!(at("r/Lang/a.txt"), None);
    assert_eq!(at("Lang/a.json"), None);
    assert_eq!(at(""), None);
}

#[test]
fn the_target_folder_is_below_the_root() {
    assert_eq!(target_folder("root", "Lang"), "root/Lang");
    assert_eq!(target_folder("", "Lang"), "Lang");
}

#[test]
fn wanted_entries_are_found_below_the_root_folder() {
    let data = archive(&[
        ("top.json", "x"),
        ("pack/", ""),
        ("pack/Lang/LLC_zh-CN/one.json", "1"),
        ("pack/Lang/LLC_zh-CN/sub/two.json", "2"),
        ("pack/Lang/EN/three.json", "3"),
        ("pack/Lang/LLC_zh-CN/four.txt", "4"),
    ]);
    assert_eq!(begin(data.clone()).target(), "pack/Lang/LLC_zh-CN");
    let found = walk(begin(data));
    assert_eq!(names(&found), vec!["one.json", "sub/two.json"]);
    assert_eq!(found[1].1, "2");
}

#[test]
fn without_folders_there_is_no_root() {
    let data = archive(&[("Lang.json", "1"), ("b.json", "2")]);
    assert!(walk(begin(data)).is_empty());
    let data = archive(&[("/Lang/LLC_zh-CN/a.json", "1"), ("Lang/LLC_zh-CN/b.json", "2")]);
    assert_eq!(names(&walk(begin(data))), vec!["b.json"]);
}

#[test]
fn bytes_that_are_no_archive_are_refused() {
    let e = OpenArchive::open(b"not a zip file".to_vec()).map(|_| ()).unwrap_err();
    assert!(e.message().starts_with("ZIP extraction error: "), "{}", e.message());
}

#[test]
fn damaged_entries_are_skipped() {
    let mut data = archive(&[("r/Lang/LLC_zh-CN/a.json", "damaged"), ("r/Lang/LLC_zh-CN/b.json", "sound")]);
    let at = data.windows(7).position(|w| w == b"damaged").unwrap();
    data[at] = b'D';
    assert_eq!(walk(begin(data)), vec![("b.json".to_string(), "sound".to_string())]);
}

#[test]
fn failed_writes_are_left_out() {
    let mut w = begin(archive(&[("r/Lang/LLC_zh-CN/a.json", "1"), ("r/Lang/LLC_zh-CN/b.json", "2")]));
    assert!(matches!(w.step(None), Ok(ExtractStep::Write { .. })));
    assert!(w.written(false).is_none());
    assert!(matches!(w.step(None), Ok(ExtractStep::Write { .. })));
    assert!(w.written(true).is_none());
    assert!(matches!(w.step(None), Ok(ExtractStep::Finished)));
    assert!(matches!(w.step(None), Ok(ExtractStep::Finished)));
    let (files, told) = w.finish();
    assert_eq!(files, vec!["b.json"]);
    assert_eq!((told.message.as_str(), percent(&told.progress)), ("Found 1 files to convert", 55));
}

#[test]
fn a_walk_stops_at_every_two_hundredth_entry() {
    let all: Vec<String> = (0..401).map(|i| format!("r/Lang/LLC_zh-CN/{i}.json")).collect();
    let entries: Vec<(&str, &str)> = all.iter().map(|n| (n.as_str(), "{}")).collect();
    let data = archive(&entries);
    let mut w = begin(data.clone());
    assert_eq!(w.step(Some(true)).unwrap_err().message(), "Other error: Conversion cancelled by user");

    let mut w = begin(data);
    let mut told = vec![];
    for i in 0..401 {
        // The walk can be stopped only at entries 0, 200 and 400.
        let cancel = Some(i % 200 != 0);
        match w.step(cancel).unwrap() {
            ExtractStep::Write { .. } => {
                if let Some(update) = w.written(true) {
                    told.push((update.message, percent(&update.progress)));
                }
            }
            other => panic!("{other:?}"),
        }
    }
    assert_eq!(
        told,
        vec![
            ("Extracting... 100 files".to_string(), 47),
            ("Extracting... 200 files".to_string(), 49),
            ("Extracting... 300 files".to_string(), 52),
            ("Extracting... 400 files".to_string(), 54),
        ]
    );
    assert!(matches!(w.step(Some(true)), Ok(ExtractStep::Finished)));
    assert_eq!(w.finish().0.len(), 401);
}
