//! Releases of the translation: which one is the latest, and what to download
//! of it.
use vstd::prelude::*;

use crate::config::{opt_str, Config};
use crate::dates::{date_can_be_cut, normalized_date};
use crate::error::{AppError, ErrorView};
use crate::numbers::{format_bytes, number_in, parse_u64, size_text};
use crate::progress::{note, Progress, ProgressUpdate, UpdateView};
use crate::text::{concat, contains, ends_with, has_part, opt_text};

verus! {

/// What came back for a request.
#[derive(Debug)]
pub enum Reply<T> {
    /// Nothing did; why.
    Unreachable(String),
    /// A refusal, with its status and, if it can be read, its text.
    Refused { status: String, body: Option<String> },
    /// Something that cannot be understood; why.
    Malformed(String),
    /// What was asked for.
    Received(T),
}

/// One file of a release.
#[derive(Debug)]
pub struct ReleaseAsset {
    pub name: String,
    pub browser_download_url: String,
}

/// A release.
#[derive(Debug)]
pub struct GitHubRelease {
    pub tag_name: String,
    pub published_at: Option<String>,
    pub created_at: Option<String>,
    pub assets: Vec<ReleaseAsset>,
}

/// Where to ask for the latest release.
pub fn latest_release_url(config: &Config) -> (r: String)
    ensures
        r@ == "https://api.github.com/repos/"@ + config.repo_owner@ + "/"@ + config.repo_name@
            + "/releases/latest"@,
{
    let mut out = concat("https://api.github.com/repos/", config.repo_owner.as_str());
    out.append("/");
    out.append(config.repo_name.as_str());
    out.append("/releases/latest");
    out
}

/// The error for work that was told to stop, if it was. There is no flag where
/// the work cannot be told.
pub fn check_cancelled(cancel_flag: Option<bool>) -> (r: Result<(), AppError>)
    ensures
        r is Err <==> cancel_flag == Some(true),
        r matches Err(e) ==> e@ == ErrorView::Other("Conversion cancelled by user"@),
{
    match cancel_flag {
        Some(true) => Err(AppError::Other("Conversion cancelled by user".to_string())),
        _ => Ok(()),
    }
}

// ---------------------------------------------------------------------------
// The latest release
// ---------------------------------------------------------------------------

/// The date that a timestamp begins with, where there is a timestamp.
pub open spec fn opt_date(raw: Option<Seq<char>>) -> Option<Seq<char>> {
    match raw {
        Some(text) => normalized_date(text),
        None => None,
    }
}

/// A timestamp, where there is one, can be cut to its first ten bytes.
pub open spec fn opt_can_be_cut(raw: Option<Seq<char>>) -> bool {
    raw matches Some(text) ==> date_can_be_cut(text)
}

/// The date that a timestamp begins with, where there is a timestamp.
pub fn normalize_release_date(raw: Option<&str>) -> (r: Option<String>)
    requires
        opt_can_be_cut(opt_str(raw)),
    ensures
        opt_text(r) == opt_date(opt_str(raw)),
{
    match raw {
        Some(text) => crate::dates::normalize_release_date(text),
        None => None,
    }
}

impl GitHubRelease {
    /// When the release was published, or else created.
    pub open spec fn timestamp(self) -> Option<Seq<char>> {
        match self.published_at {
            Some(at) => Some(at@),
            None => opt_text(self.created_at),
        }
    }

    /// When the release was published, or else created.
    pub fn stamped(&self) -> (r: Option<&str>)
        ensures
            opt_str(r) == self.timestamp(),
    {
        match &self.published_at {
            Some(at) => Some(at.as_str()),
            None => match &self.created_at {
                Some(at) => Some(at.as_str()),
                None => None,
            },
        }
    }
}

/// The tag and the date of the latest release, from what came back for it.
pub fn get_latest_commit_hash(reply: Reply<GitHubRelease>) -> (r: Result<
    (String, Option<String>),
    AppError,
>)
    requires
        reply matches Reply::Received(release) ==> opt_can_be_cut(release.timestamp()),
    ensures
        match reply {
            Reply::Unreachable(e) => r matches Err(err) && err@ == ErrorView::Network(e@),
            Reply::Refused { status, body } => r matches Err(err) && err@ == ErrorView::Other(
                "GitHub API returned error status "@ + status@ + ": "@ + (match body {
                    Some(text) => text@,
                    None => "Unable to read error message"@,
                }),
            ),
            Reply::Malformed(e) => r matches Err(err) && err@ == ErrorView::Other(
                "Failed to parse Release info: "@ + e@,
            ),
            Reply::Received(release) => r matches Ok(found) && found.0@ == release.tag_name@
                && opt_text(found.1) == opt_date(release.timestamp()),
        },
{
    match reply {
        Reply::Unreachable(e) => Err(AppError::Network(e)),
        Reply::Refused { status, body } => {
            let text = match body {
                Some(text) => text,
                None => "Unable to read error message".to_string(),
            };
            let mut message = concat("GitHub API returned error status ", status.as_str());
            message.append(": ");
            message.append(text.as_str());
            Err(AppError::Other(message))
        },
        Reply::Malformed(e) => Err(
            AppError::other("Failed to parse Release info: ", e.as_str()),
        ),
        Reply::Received(release) => {
            let date = normalize_release_date(release.stamped());
            Ok((release.tag_name, date))
        },
    }
}

/// What is told once the latest release is known.
pub fn found_release(tag: &str) -> (r: ProgressUpdate)
    ensures
        r@ == UpdateView::note(Progress::at(100), "Found latest version: "@ + tag@),
{
    note(100, concat("Found latest version: ", tag).as_str())
}

/// The latest release, from what came back for it.
pub fn get_latest_release(reply: Reply<GitHubRelease>) -> (r: Result<GitHubRelease, AppError>)
    ensures
        match reply {
            Reply::Unreachable(e) => r matches Err(err) && err@ == ErrorView::Network(e@),
            Reply::Refused { status, body } => r matches Err(err) && err@ == ErrorView::Other(
                "Failed to fetch Release info: "@ + status@,
            ),
            Reply::Malformed(e) => r matches Err(err) && err@ == ErrorView::Other(
                "Failed to parse Release info: "@ + e@,
            ),
            Reply::Received(release) => r matches Ok(found) && found == release,
        },
{
    match reply {
        Reply::Unreachable(e) => Err(AppError::Network(e)),
        Reply::Refused { status, body } => Err(
            AppError::other("Failed to fetch Release info: ", status.as_str()),
        ),
        Reply::Malformed(e) => Err(
            AppError::other("Failed to parse Release info: ", e.as_str()),
        ),
        Reply::Received(release) => Ok(release),
    }
}

// ---------------------------------------------------------------------------
// What to download
// ---------------------------------------------------------------------------

/// The file is a ZIP file.
pub open spec fn zip_file(asset: ReleaseAsset) -> bool {
    ".zip"@.is_suffix_of(asset.name@)
}

/// The file is a ZIP file, and not of the source code.
pub open spec fn build_file(asset: ReleaseAsset) -> bool {
    zip_file(asset) && !has_part(asset.name@, "Source"@)
}

/// The first file of a release for which something holds.
pub open spec fn first_asset(assets: Seq<ReleaseAsset>, f: spec_fn(ReleaseAsset) -> bool) -> Option<
    ReleaseAsset,
>
    decreases assets.len(),
{
    if assets.len() == 0 {
        None
    } else if f(assets[0]) {
        Some(assets[0])
    } else {
        first_asset(assets.drop_first(), f)
    }
}

/// The file of a release to download: the first ZIP file that is not of the
/// source code, or else the first ZIP file.
pub open spec fn chosen_asset(assets: Seq<ReleaseAsset>) -> Option<ReleaseAsset> {
    let build = first_asset(assets, |a: ReleaseAsset| build_file(a));
    if build is Some {
        build
    } else {
        first_asset(assets, |a: ReleaseAsset| zip_file(a))
    }
}

/// The position of the first file that is a ZIP file and, where `builds` says
/// so, not of the source code.
fn find_asset(assets: &Vec<ReleaseAsset>, builds: bool) -> (r: Option<usize>)
    ensures
        ({
            let f = if builds {
                |a: ReleaseAsset| build_file(a)
            } else {
                |a: ReleaseAsset| zip_file(a)
            };
            match r {
                Some(i) => i < assets@.len() && first_asset(assets@, f) == Some(assets@[i as int]),
                None => first_asset(assets@, f) is None,
            }
        }),
{
    let ghost f = if builds {
        |a: ReleaseAsset| build_file(a)
    } else {
        |a: ReleaseAsset| zip_file(a)
    };
    let mut i: usize = 0;
    assert(assets@.skip(0) == assets@);
    while i < assets.len()
        invariant
            i <= assets@.len(),
            f == (if builds {
                |a: ReleaseAsset| build_file(a)
            } else {
                |a: ReleaseAsset| zip_file(a)
            }),
            first_asset(assets@, f) == first_asset(assets@.skip(i as int), f),
        decreases assets@.len() - i,
    {
        let name = assets[i].name.as_str();
        if ends_with(name, ".zip") && (!builds || !contains(name, "Source")) {
            return Some(i);
        }
        assert(assets@.skip(i as int).drop_first() == assets@.skip(i + 1));
        i += 1;
    }
    None
}

/// Where to download a release from.
pub fn get_latest_release_zip_url(release: &GitHubRelease) -> (r: Result<String, AppError>)
    ensures
        match chosen_asset(release.assets@) {
            Some(asset) => r matches Ok(url) && url@ == asset.browser_download_url@,
            None => r matches Err(e) && e@ == ErrorView::Other(
                "No ZIP file found in release "@ + release.tag_name@,
            ),
        },
{
    let mut found = find_asset(&release.assets, true);
    if found.is_none() {
        found = find_asset(&release.assets, false);
    }
    match found {
        Some(i) => Ok(release.assets[i].browser_download_url.as_str().to_string()),
        None => Err(
            AppError::other("No ZIP file found in release ", release.tag_name.as_str()),
        ),
    }
}

proof fn lemma_first_asset(assets: Seq<ReleaseAsset>, f: spec_fn(ReleaseAsset) -> bool)
    ensures
        match first_asset(assets, f) {
            Some(asset) => assets.contains(asset) && f(asset),
            None => forall|i: int| 0 <= i < assets.len() ==> !f(#[trigger] assets[i]),
        },
    decreases assets.len(),
{
    if assets.len() > 0 {
        let rest = assets.drop_first();
        lemma_first_asset(rest, f);
        if !f(assets[0]) {
            if let Some(asset) = first_asset(rest, f) {
                let i = choose|i: int| 0 <= i < rest.len() && rest[i] == asset;
                assert(assets[i + 1] == asset);
            } else {
                assert forall|i: int| 0 <= i < assets.len() implies !f(#[trigger] assets[i]) by {
                    if i > 0 {
                        assert(rest[i - 1] == assets[i]);
                    }
                }
            }
        }
    }
}

/// What is downloaded is a ZIP file of the release, and is of the source code
/// only where every ZIP file of the release is. Nothing is downloaded only
/// where the release has no ZIP file.
pub proof fn law_chosen_asset_is_a_build_where_there_is_one(assets: Seq<ReleaseAsset>)
    ensures
        match chosen_asset(assets) {
            Some(asset) => {
                &&& assets.contains(asset)
                &&& zip_file(asset)
                &&& build_file(asset) || forall|i: int|
                    0 <= i < assets.len() && zip_file(#[trigger] assets[i]) ==> has_part(
                        assets[i].name@,
                        "Source"@,
                    )
            },
            None => forall|i: int| 0 <= i < assets.len() ==> !zip_file(#[trigger] assets[i]),
        },
{
    lemma_first_asset(assets, |a: ReleaseAsset| build_file(a));
    lemma_first_asset(assets, |a: ReleaseAsset| zip_file(a));
}

// ---------------------------------------------------------------------------
// The download
// ---------------------------------------------------------------------------

/// The size that a header announces; zero where there is no header that holds
/// one.
pub fn content_length(header: Option<&str>) -> (r: u64)
    ensures
        r == (match header {
            Some(text) => match number_in(text@) {
                Some(n) => n,
                None => 0,
            },
            None => 0,
        }),
{
    match header {
        Some(text) => match parse_u64(text) {
            Some(n) => n,
            None => 0,
        },
        None => 0,
    }
}

/// The error for a download that did not begin.
pub fn download_refused(status: &str) -> (r: AppError)
    ensures
        r@ == ErrorView::Other("Download failed with HTTP status: "@ + status@),
{
    AppError::other("Download failed with HTTP status: ", status)
}

/// What is told before a download begins.
pub fn download_begins() -> (r: ProgressUpdate)
    ensures
        r@ == UpdateView::note(Progress::at(150), "Downloading update data..."@),
{
    note(150, "Downloading update data...")
}

/// How far a download is. Where its size was not announced, ten million bytes
/// stand for the whole of it.
pub open spec fn download_progress(downloaded: nat, total_size: u64) -> Progress {
    if total_size > 0 {
        Progress {
            base_tenths: 150,
            span_tenths: 250,
            done: downloaded as u64,
            total: total_size,
        }
    } else {
        Progress {
            base_tenths: 150,
            span_tenths: 250,
            done: if downloaded < 10_000_000 {
                downloaded as u64
            } else {
                10_000_000
            },
            total: 10_000_000,
        }
    }
}

/// What is told of a download that goes on.
pub open spec fn download_update(downloaded: nat, total_size: u64) -> UpdateView {
    UpdateView::note(
        download_progress(downloaded, total_size),
        "Downloading... "@ + size_text(downloaded) + " / "@ + size_text(total_size as nat),
    )
}

/// What comes of a part of a download.
#[derive(Debug)]
pub enum DownloadStep {
    /// It goes on; what is told of it.
    GoesOn(ProgressUpdate),
    /// It is complete; what is told of it.
    Complete(ProgressUpdate),
}

/// A download: what has come so far, and how much was announced.
#[derive(Debug)]
pub struct Download {
    pub buffer: Vec<u8>,
    pub total_size: u64,
}

impl Download {
    /// A download of which nothing has come yet.
    pub fn new(total_size: u64) -> (r: Download)
        ensures
            r.buffer@ == Seq::<u8>::empty(),
            r.total_size == total_size,
    {
        Download { buffer: Vec::new(), total_size }
    }

    /// Takes the next part of the download. An empty part ends it.
    pub fn receive(&mut self, chunk: &[u8]) -> (r: DownloadStep)
        ensures
            final(self).total_size == old(self).total_size,
            final(self).buffer@ == old(self).buffer@ + chunk@,
            match r {
                DownloadStep::GoesOn(update) => chunk@.len() > 0 && update@ == download_update(
                    final(self).buffer@.len(),
                    final(self).total_size,
                ) && update.progress.wf(),
                DownloadStep::Complete(update) => chunk@.len() == 0 && update@
                    == UpdateView::note(Progress::at(400), "Download completed"@),
            },
    {
        if chunk.len() == 0 {
            assert(self.buffer@ + chunk@ == self.buffer@);
            return DownloadStep::Complete(note(400, "Download completed"));
        }
        self.buffer.extend_from_slice(chunk);
        assert(self.buffer@ == old(self).buffer@ + chunk@);
        let downloaded = self.buffer.len() as u64;
        let progress = if self.total_size > 0 {
            Progress {
                base_tenths: 150,
                span_tenths: 250,
                done: downloaded,
                total: self.total_size,
            }
        } else {
            Progress {
                base_tenths: 150,
                span_tenths: 250,
                done: if downloaded < 10_000_000 {
                    downloaded
                } else {
                    10_000_000
                },
                total: 10_000_000,
            }
        };
        let mut message = concat("Downloading... ", format_bytes(downloaded).as_str());
        message.append(" / ");
        message.append(format_bytes(self.total_size).as_str());
        DownloadStep::GoesOn(
            ProgressUpdate {
                progress,
                message,
                current_file: None,
                total_files: None,
                processed_files: None,
            },
        )
    }
}

proof fn lemma_first_asset_at(assets: Seq<ReleaseAsset>, f: spec_fn(ReleaseAsset) -> bool, i: int)
    requires
        0 <= i < assets.len(),
        f(assets[i]),
        forall|j: int| 0 <= j < i ==> !f(#[trigger] assets[j]),
    ensures
        first_asset(assets, f) == Some(assets[i]),
    decreases assets.len(),
{
    if i > 0 {
        let rest = assets.drop_first();
        assert(!f(assets[0]));
        assert forall|j: int| 0 <= j < i - 1 implies !f(#[trigger] rest[j]) by {
            assert(rest[j] == assets[j + 1]);
        }
        lemma_first_asset_at(rest, f, i - 1);
    }
}

/// The file to download is the first one whose name ends with `.zip` and does not
/// hold `Source`, wherever it stands among the files.
pub proof fn law_first_build_is_downloaded(assets: Seq<ReleaseAsset>, i: int)
    requires
        0 <= i < assets.len(),
        ".zip"@.is_suffix_of(assets[i].name@),
        !has_part(assets[i].name@, "Source"@),
        forall|j: int|
            0 <= j < i ==> !".zip"@.is_suffix_of((#[trigger] assets[j]).name@) || has_part(
                assets[j].name@,
                "Source"@,
            ),
    ensures
        chosen_asset(assets) == Some(assets[i]),
{
    lemma_first_asset_at(assets, |a: ReleaseAsset| build_file(a), i);
}

/// Where every file that ends with `.zip` holds `Source` in its name, the first of
/// them is the file to download; where there is none, there is nothing to download.
pub proof fn law_first_archive_is_downloaded_without_builds(assets: Seq<ReleaseAsset>, i: int)
    requires
        forall|j: int|
            0 <= j < assets.len() && ".zip"@.is_suffix_of((#[trigger] assets[j]).name@)
                ==> has_part(assets[j].name@, "Source"@),
    ensures
        0 <= i < assets.len() && ".zip"@.is_suffix_of(assets[i].name@) && (forall|j: int|
            0 <= j < i ==> !".zip"@.is_suffix_of((#[trigger] assets[j]).name@)) ==> chosen_asset(
            assets,
        ) == Some(assets[i]),
        (forall|j: int|
            0 <= j < assets.len() ==> !".zip"@.is_suffix_of((#[trigger] assets[j]).name@))
            ==> chosen_asset(assets) is None,
{
    let build = |a: ReleaseAsset| build_file(a);
    let zip = |a: ReleaseAsset| zip_file(a);
    lemma_first_asset(assets, build);
    lemma_first_asset(assets, zip);
    if 0 <= i < assets.len() && zip(assets[i]) && (forall|j: int|
        0 <= j < i ==> !".zip"@.is_suffix_of((#[trigger] assets[j]).name@)) {
        lemma_first_asset_at(assets, zip, i);
    }
    if forall|j: int| 0 <= j < assets.len() ==> !".zip"@.is_suffix_of((#[trigger] assets[j]).name@) {
        assert(forall|j: int| 0 <= j < assets.len() ==> !zip(#[trigger] assets[j]));
    }
}

/// A release is dated by when it was published or, where that is not known, by
/// when it was created.
pub proof fn law_release_is_dated(release: GitHubRelease, raw: Seq<char>)
    ensures
        release.published_at is Some ==> release.timestamp() == Some(
            release.published_at->Some_0@,
        ),
        release.published_at is None && release.created_at is Some ==> release.timestamp() == Some(
            release.created_at->Some_0@,
        ),
        release.published_at is None && release.created_at is None ==> release.timestamp() is None,
        opt_date(Some(raw)) == normalized_date(raw),
        opt_date(None) is None,
{
}

/// A download is told with its bytes so far and those announced. Its share of the
/// work is a quarter, from fifteen percent on, of which it has done what has come
/// of what was announced; where nothing was announced, what has come of ten
/// million bytes, and no more than all of them.
pub proof fn law_download_tells_its_bytes(downloaded: u64, total_size: u64)
    ensures
        ({
            let update = download_update(downloaded as nat, total_size);
            &&& update.message == "Downloading... "@ + size_text(downloaded as nat) + " / "@
                + size_text(total_size as nat)
            &&& update.current_file is None && update.total_files is None
                && update.processed_files is None
            &&& update.progress.base_tenths == 150 && update.progress.span_tenths == 250
            &&& total_size > 0 ==> update.progress.done == downloaded && update.progress.total
                == total_size
            &&& total_size == 0 ==> update.progress.total == 10_000_000 && update.progress.done
                == (if downloaded <= 10_000_000 {
                downloaded
            } else {
                10_000_000
            })
        }),
{
}

/// A timestamp can be cut where there is none, or where its text can.
pub proof fn law_missing_timestamps_can_be_cut(raw: Seq<char>)
    ensures
        opt_can_be_cut(None),
        opt_can_be_cut(Some(raw)) <==> date_can_be_cut(raw),
{
}

} // verus!
