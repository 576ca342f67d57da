use lzcr::archive::{target_folder, ExtractStep, OpenArchive};
use lzcr::config::Config;
use lzcr::numbers::format_bytes;
use lzcr::progress::Progress;
use lzcr::release::{
    check_cancelled, content_length, download_begins, download_refused, found_release, get_latest_commit_hash,
    get_latest_release, get_latest_release_zip_url, latest_release_url, Download, DownloadStep, GitHubRelease,
    ReleaseAsset, Reply,
};
use std::io::Write;

/// The whole percents of a progress, a hundred at most.
fn percent(progress: &Progress) -> u64 {
    (1..=100u32).take_while(|p| progress.reaches(10 * p)).count() as u64
}

fn asset(name: &str) -> ReleaseAsset {
    ReleaseAsset { name: name.to_string(), browser_download_url: format!("https://example.org/{name}") }
}

fn release(names: &[&str]) -> GitHubRelease {
    GitHubRelease {
        tag_name: "v20240506".to_string(),
        published_at: Some("2024-05-06T07:08:09Z".to_string()),
        created_at: Some("2024-05-05T07:08:09Z".to_string()),
        assets: names.iter().map(|n| asset(n)).collect(),
    }
}

fn refused<T>() -> Reply<T> {
    Reply::Refused { status: "403 Forbidden".to_string(), body: Some("rate limit".to_string()) }
}

#[test]
fn test_github_releases_workflow() {
    let url = latest_release_url(&Config::default(None));
    assert_eq!(
        url,
        "https://api.github.com/repos/LocalizeLimbusCompany/LocalizeLimbusCompany/releases/latest"
    );
    let reply = Reply::Received(release(&["notes.txt", "Source code.zip", "LimbusLocalize_20240506.zip"]));
    let found = get_latest_release(reply).unwrap();
    assert_eq!(found.tag_name, "v20240506");
    assert_eq!(found.assets.len(), 3);
    assert_eq!(
        get_latest_release_zip_url(&found).unwrap(),
        "https://example.org/LimbusLocalize_20240506.zip"
    );
    assert_eq!(content_length(Some("1500000")), 1_500_000);
    assert_eq!(format_bytes(content_length(Some("1500000"))), "1.43 MB");
}

#[test]
fn test_full_download_and_extract() {
    let found = get_latest_release(Reply::Received(release(&["LimbusLocalize.zip"]))).unwrap();
    assert_eq!(get_latest_release_zip_url(&found).unwrap(), "https://example.org/LimbusLocalize.zip");

    let mut writer = zip::ZipWriter::new(std::io::Cursor::new(Vec::new()));
    let options = zip::write::SimpleFileOptions::default();
    for (name, content) in [("LLC/Lang/LLC_zh-CN/a.json", "{}"), ("LLC/readme.md", "no"), ("LLC/Lang/LLC_zh-CN/b/c.json", "[]")] {
        writer.start_file(name, options).unwrap();
        writer.write_all(content.as_bytes()).unwrap();
    }
    let bytes = writer.finish().unwrap().into_inner();

    let mut download = Download::new(bytes.len() as u64);
    for part in bytes.chunks(100) {
        assert!(matches!(download.receive(part), DownloadStep::GoesOn(_)));
    }
    assert!(matches!(download.receive(&[]), DownloadStep::Complete(_)));
    assert_eq!(download.buffer, bytes);

    let mut walk = OpenArchive::open(download.buffer).unwrap().extract_files("Lang/LLC_zh-CN").unwrap();
    let mut seen = vec![];
    loop {
        match walk.step(Some(false)).unwrap() {
            ExtractStep::Finished => break,
            ExtractStep::Skip => {}
            ExtractStep::Write { path, content } => {
                seen.push((path, String::from_utf8(content).unwrap()));
                assert!(walk.written(true).is_none());
            }
        }
    }
    assert_eq!(
        seen,
        vec![("a.json".to_string(), "{}".to_string()), ("b/c.json".to_string(), "[]".to_string())]
    );
    let (files, told) = walk.finish();
    assert_eq!(files, vec!["a.json", "b/c.json"]);
    assert_eq!(told.message, "Found 2 files to convert");
    assert_eq!(target_folder("LLC", "Lang/LLC_zh-CN"), "LLC/Lang/LLC_zh-CN");
}

#[test]
fn a_build_is_preferred_to_source_code() {
    let url = |names: &[&str]| get_latest_release_zip_url(&release(names)).map_err(|e| e.message());
    assert_eq!(url(&["a.zip", "b.zip"]).unwrap(), "https://example.org/a.zip");
    assert_eq!(url(&["Source.zip", "b.zip"]).unwrap(), "https://example.org/b.zip");
    assert_eq!(url(&["x.7z", "Source.zip"]).unwrap(), "https://example.org/Source.zip");
    assert_eq!(url(&["x.7z"]).unwrap_err(), "Other error: No ZIP file found in release v20240506");
    assert_eq!(url(&[]).unwrap_err(), "Other error: No ZIP file found in release v20240506");
}

#[test]
fn the_latest_release_has_a_tag_and_a_date() {
    let (tag, date) = get_latest_commit_hash(Reply::Received(release(&[]))).unwrap();
    assert_eq!((tag.as_str(), date.as_deref()), ("v20240506", Some("2024-05-06")));
    let mut r = release(&[]);
    r.published_at = None;
    assert_eq!(get_latest_commit_hash(Reply::Received(r)).unwrap().1.as_deref(), Some("2024-05-05"));
    let mut r = release(&[]);
    r.published_at = Some("soon".to_string());
    assert_eq!(get_latest_commit_hash(Reply::Received(r)).unwrap().1, None);
    let mut r = release(&[]);
    r.published_at = None;
    r.created_at = None;
    assert_eq!(get_latest_commit_hash(Reply::Received(r)).unwrap().1, None);
}

#[test]
fn failed_requests_for_a_release_are_told() {
    let e = |r: Reply<GitHubRelease>| get_latest_commit_hash(r).unwrap_err().message();
    assert_eq!(e(Reply::Unreachable("dns".to_string())), "Network error: dns");
    assert_eq!(e(refused()), "Other error: GitHub API returned error status 403 Forbidden: rate limit");
    assert_eq!(
        e(Reply::Refused { status: "500".to_string(), body: None }),
        "Other error: GitHub API returned error status 500: Unable to read error message"
    );
    assert_eq!(e(Reply::Malformed("eof".to_string())), "Other error: Failed to parse Release info: eof");
    let e = |r: Reply<GitHubRelease>| get_latest_release(r).unwrap_err().message();
    assert_eq!(e(Reply::Unreachable("dns".to_string())), "Network error: dns");
    assert_eq!(e(refused()), "Other error: Failed to fetch Release info: 403 Forbidden");
    assert_eq!(e(Reply::Malformed("eof".to_string())), "Other error: Failed to parse Release info: eof");
    assert_eq!(download_refused("404").message(), "Other error: Download failed with HTTP status: 404");
}

#[test]
fn work_stops_only_when_told() {
    assert!(check_cancelled(None).is_ok());
    assert!(check_cancelled(Some(false)).is_ok());
    assert_eq!(check_cancelled(Some(true)).unwrap_err().message(), "Other error: Conversion cancelled by user");
}

#[test]
fn downloads_tell_how_far_they_are() {
    assert_eq!(download_begins().message, "Downloading update data...");
    assert_eq!(found_release("v1").message, "Found latest version: v1");
    let mut d = Download::new(4096);
    match d.receive(&vec![7; 1024]) {
        DownloadStep::GoesOn(u) => {
            assert_eq!(u.message, "Downloading... 1.00 KB / 4.00 KB");
            assert_eq!(u.progress, Progress { base_tenths: 150, span_tenths: 250, done: 1024, total: 4096 });
            assert_eq!(percent(&u.progress), 21);
        }
        other => panic!("{other:?}"),
    }
    match d.receive(&[]) {
        DownloadStep::Complete(u) => assert_eq!((u.message.as_str(), percent(&u.progress)), ("Download completed", 40)),
        other => panic!("{other:?}"),
    }
    let mut d = Download::new(content_length(None));
    match d.receive(&vec![7; 5_000_000]) {
        DownloadStep::GoesOn(u) => {
            assert_eq!(u.message, "Downloading... 4.77 MB / 0 B");
            assert_eq!(percent(&u.progress), 27);
        }
        other => panic!("{other:?}"),
    }
    match d.receive(&vec![7; 15_000_000]) {
        DownloadStep::GoesOn(u) => assert_eq!(percent(&u.progress), 40),
        other => panic!("{other:?}"),
    }
    assert_eq!(content_length(Some("x")), 0);
}
