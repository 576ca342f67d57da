//! The texts of the voice bubbles: which files there are, their download, and
//! their installation.
use vstd::prelude::*;

use crate::dates::{date_can_be_cut, normalize_release_date, normalized_date};
use crate::error::{AppError, ErrorView};
use crate::numbers::{decimal, size_to_decimal};
use crate::progress::{Progress, ProgressUpdate, UpdateView};
use crate::release::{check_cancelled, Reply};
use crate::text::{concat3, ends_with, lemma_text_le_antisymmetric, lemma_text_le_total, lemma_text_le_transitive, not_after, opt_text, same_text, text_le};

verus! {

/// Where to ask for the list of the voice files.
pub fn contents_url() -> (r: String)
    ensures
        r@ == "https://api.github.com/repos/sipdetect/LimbusDialogueBoxes_ZH/contents"@,
{
    "https://api.github.com/repos/sipdetect/LimbusDialogueBoxes_ZH/contents".to_string()
}

/// Where to ask for the latest change of the voice files.
pub fn commits_url() -> (r: String)
    ensures
        r@ == "https://api.github.com/repos/sipdetect/LimbusDialogueBoxes_ZH/commits?per_page=1"@,
{
    "https://api.github.com/repos/sipdetect/LimbusDialogueBoxes_ZH/commits?per_page=1".to_string()
}

// ---------------------------------------------------------------------------
// The list of files
// ---------------------------------------------------------------------------

/// One entry of the list of files.
#[derive(Debug)]
pub struct RepoContentItem {
    pub name: String,
    pub download_url: Option<String>,
    pub item_type: String,
}

/// A [`RepoContentItem`] by its characters.
#[verifier::ext_equal]
pub struct ItemView {
    pub name: Seq<char>,
    pub download_url: Option<Seq<char>>,
    pub item_type: Seq<char>,
}

impl View for RepoContentItem {
    type V = ItemView;

    open spec fn view(&self) -> ItemView {
        ItemView {
            name: self.name@,
            download_url: opt_text(self.download_url),
            item_type: self.item_type@,
        }
    }
}

/// The entries by their characters.
pub open spec fn items(v: Seq<RepoContentItem>) -> Seq<ItemView> {
    Seq::new(v.len(), |i: int| v[i]@)
}

/// The entry is a JSON file.
pub open spec fn json_file(item: ItemView) -> bool {
    item.item_type == "file"@ && ".json"@.is_suffix_of(item.name)
}

/// The entries stand in the order of their names.
pub open spec fn in_order(v: Seq<ItemView>) -> bool {
    forall|i: int, j: int| 0 <= i <= j < v.len() ==> text_le(#[trigger] v[i].name, #[trigger] v[j].name)
}

/// The entries that have a name, as they stand in a row.
pub open spec fn named(v: Seq<ItemView>, name: Seq<char>) -> Seq<ItemView> {
    v.filter(|item: ItemView| item.name == name)
}

/// `r` holds the JSON files of `entries` and nothing else, in the order of
/// their names; entries with the same name stand as they stood.
pub open spec fn listed(r: Seq<ItemView>, entries: Seq<ItemView>) -> bool {
    &&& in_order(r)
    &&& forall|name: Seq<char>| #[trigger]
        named(r, name) == named(entries.filter(|item: ItemView| json_file(item)), name)
}

/// The entries with one more put behind all whose names are not after its name.
fn insert_item(sorted: &mut Vec<RepoContentItem>, item: RepoContentItem)
    requires
        in_order(items(old(sorted)@)),
    ensures
        in_order(items(final(sorted)@)),
        forall|name: Seq<char>| #[trigger]
            named(items(final(sorted)@), name) == named(items(old(sorted)@).push(item@), name),
{
    let ghost before = items(sorted@);
    let mut at: usize = sorted.len();
    while at > 0 && !not_after(sorted[at - 1].name.as_str(), item.name.as_str())
        invariant
            at <= sorted@.len(),
            before == items(sorted@),
            forall|j: int| at <= j < before.len() ==> !text_le(#[trigger] before[j].name, item@.name),
        decreases at,
    {
        assert(before[at - 1].name == sorted@[at - 1].name@);
        at -= 1;
    }
    let ghost new = item@;
    assert(at > 0 ==> before[at - 1].name == sorted@[at - 1]@.name);
    sorted.insert(at, item);
    assert(items(sorted@) == before.insert(at as int, new));
    proof {
        lemma_inserted(before, at as int, new);
    }
}

/// Putting an entry behind all whose names are not after its name keeps the
/// order, and puts it last among those with its name.
proof fn lemma_inserted(before: Seq<ItemView>, at: int, new: ItemView)
    requires
        in_order(before),
        0 <= at <= before.len(),
        at > 0 ==> text_le(before[at - 1].name, new.name),
        forall|j: int| at <= j < before.len() ==> !text_le(#[trigger] before[j].name, new.name),
    ensures
        in_order(before.insert(at, new)),
        forall|name: Seq<char>| #[trigger]
            named(before.insert(at, new), name) == named(before.push(new), name),
{
    let after = before.insert(at, new);
    let front = before.take(at);
    let back = before.skip(at);
    assert(before == front + back);
    assert(after == front + seq![new] + back);
    assert forall|i: int, j: int| 0 <= i <= j < after.len() implies text_le(
        #[trigger] after[i].name,
        #[trigger] after[j].name,
    ) by {
        lemma_text_le_total(new.name, new.name);
        if j == at {
            if i < at {
                assert(after[i] == before[i]);
                assert(text_le(before[i].name, before[at - 1].name));
                lemma_text_le_transitive(before[i].name, before[at - 1].name, new.name);
            }
        } else if i == at {
            assert(after[j] == before[j - 1]);
            lemma_text_le_total(new.name, before[j - 1].name);
        } else {
            let k = if i < at { i } else { i - 1 };
            let l = if j < at { j } else { j - 1 };
            assert(after[i] == before[k] && after[j] == before[l]);
            assert(text_le(before[k].name, before[l].name));
        }
    }
    assert forall|name: Seq<char>| #[trigger] named(after, name) == named(
        before.push(new),
        name,
    ) by {
        let f = |item: ItemView| item.name == name;
        Seq::filter_distributes_over_add(front + seq![new], back, f);
        Seq::filter_distributes_over_add(front, seq![new], f);
        Seq::filter_distributes_over_add(front, back, f);
        Seq::filter_distributes_over_add(before, seq![new], f);
        assert(before.push(new) == before + seq![new]);
        if new.name == name {
            assert(back.filter(f) == Seq::<ItemView>::empty()) by {
                assert forall|j: int| 0 <= j < back.len() implies !f(back[j]) by {
                    assert(back[j] == before[at + j]);
                    lemma_text_le_total(name, name);
                }
                lemma_filter_none(back, f);
            }
        } else {
            assert(seq![new].filter(f) == Seq::<ItemView>::empty()) by {
                lemma_filter_none(seq![new], f);
            }
        }
    }
}

/// A row in which nothing is picked is left with nothing.
proof fn lemma_filter_none(v: Seq<ItemView>, f: spec_fn(ItemView) -> bool)
    requires
        forall|i: int| 0 <= i < v.len() ==> !f(#[trigger] v[i]),
    ensures
        v.filter(f) == Seq::<ItemView>::empty(),
    decreases v.len(),
{
    reveal(Seq::filter);
    if v.len() > 0 {
        assert forall|i: int| 0 <= i < v.drop_last().len() implies !f(
            #[trigger] v.drop_last()[i],
        ) by {
            assert(v.drop_last()[i] == v[i]);
        }
        lemma_filter_none(v.drop_last(), f);
    }
}

/// The voice files in a list of entries.
pub fn list_voice_files(entries: Vec<RepoContentItem>) -> (r: Vec<RepoContentItem>)
    ensures
        listed(items(r@), items(entries@)),
{
    let ghost all = items(entries@);
    let ghost keep = |item: ItemView| json_file(item);
    let mut left = entries;
    let mut sorted: Vec<RepoContentItem> = Vec::new();
    let ghost mut done: int = 0;
    assert(all.take(0).filter(keep) == Seq::<ItemView>::empty()) by {
        reveal(Seq::filter);
    }
    assert(items(sorted@) == Seq::<ItemView>::empty());
    while left.len() > 0
        invariant
            keep == (|item: ItemView| json_file(item)),
            0 <= done <= all.len(),
            items(left@) == all.skip(done),
            in_order(items(sorted@)),
            forall|name: Seq<char>| #[trigger]
                named(items(sorted@), name) == named(all.take(done).filter(keep), name),
        decreases left@.len(),
    {
        let ghost rest = items(left@);
        assert(rest.len() == left@.len());
        let item = left.remove(0);
        assert(item@ == rest[0] && rest[0] == all[done]);
        assert(items(left@) == rest.drop_first());
        assert(rest.drop_first() == all.skip(done + 1));
        assert(all.take(done + 1).drop_last() == all.take(done));
        assert(all.take(done + 1).last() == all[done]);
        let ghost kept = all.take(done).filter(keep);
        let ghost had = items(sorted@);
        let wanted = same_text(item.item_type.as_str(), "file") && ends_with(
            item.name.as_str(),
            ".json",
        );
        if wanted {
            let ghost new = item@;
            insert_item(&mut sorted, item);
            assert forall|name: Seq<char>| #[trigger] named(items(sorted@), name) == named(
                kept.push(new),
                name,
            ) by {
                let f = |item: ItemView| item.name == name;
                assert(named(had, name) == named(kept, name));
                assert(had.push(new).drop_last() == had);
                assert(kept.push(new).drop_last() == kept);
                reveal(Seq::filter);
            }
        }
        assert(all.take(done + 1).filter(keep) == (if json_file(all[done]) {
            kept.push(all[done])
        } else {
            kept
        })) by {
            reveal(Seq::filter);
        }
        proof {
            done = done + 1;
        }
    }
    assert(all.take(done) == all) by {
        assert(all.skip(done).len() == 0);
    }
    sorted
}

/// The list holds an entry just if it is a JSON file among the entries.
pub proof fn law_listed_are_the_json_files(
    r: Seq<ItemView>,
    entries: Seq<ItemView>,
    item: ItemView,
)
    requires
        listed(r, entries),
    ensures
        r.contains(item) <==> entries.contains(item) && json_file(item),
{
    let kept = entries.filter(|item: ItemView| json_file(item));
    assert(named(r, item.name) == named(kept, item.name));
    lemma_filter_contains(r, |x: ItemView| x.name == item.name, item);
    lemma_filter_contains(kept, |x: ItemView| x.name == item.name, item);
    lemma_filter_contains(entries, |x: ItemView| json_file(x), item);
}

/// What is picked of a row is what is in the row and is to be picked.
proof fn lemma_filter_contains(v: Seq<ItemView>, f: spec_fn(ItemView) -> bool, item: ItemView)
    ensures
        v.filter(f).contains(item) <==> v.contains(item) && f(item),
    decreases v.len(),
{
    reveal(Seq::filter);
    if v.len() > 0 {
        let front = v.drop_last();
        lemma_filter_contains(front, f, item);
        assert(v == front.push(v.last()));
        assert(front.push(v.last()).contains(item) <==> front.contains(item) || item == v.last()) by {
            if front.contains(item) {
                let i = choose|i: int| 0 <= i < front.len() && front[i] == item;
                assert(v[i] == item);
            }
            if item == v.last() {
                assert(v[v.len() - 1] == item);
            }
        }
        if f(v.last()) {
            let picked = front.filter(f);
            assert(picked.push(v.last()).contains(item) <==> picked.contains(item) || item
                == v.last()) by {
                if picked.contains(item) {
                    let i = choose|i: int| 0 <= i < picked.len() && picked[i] == item;
                    assert(picked.push(v.last())[i] == item);
                }
                if item == v.last() {
                    assert(picked.push(v.last())[picked.len() as int] == item);
                }
            }
        }
    }
}

/// There is just one list of the voice files among given entries.
pub proof fn law_list_is_determined(
    one: Seq<ItemView>,
    other: Seq<ItemView>,
    entries: Seq<ItemView>,
)
    requires
        listed(one, entries),
        listed(other, entries),
    ensures
        one == other,
{
    assert forall|name: Seq<char>| #[trigger] named(one, name) == named(other, name) by {
        assert(named(one, name) == named(
            entries.filter(|item: ItemView| json_file(item)),
            name,
        ));
        assert(named(other, name) == named(
            entries.filter(|item: ItemView| json_file(item)),
            name,
        ));
    }
    lemma_ordered_rows_agree(one, other);
}

/// The list of the voice files among entries.
pub open spec fn voice_list(entries: Seq<ItemView>) -> Seq<ItemView> {
    choose|r: Seq<ItemView>| listed(r, entries)
}

/// Among any entries there is a list of the voice files.
pub proof fn law_voice_list_is_listed(entries: Seq<ItemView>)
    ensures
        listed(voice_list(entries), entries),
    decreases entries.len(),
{
    reveal(Seq::filter);
    let keep = |item: ItemView| json_file(item);
    if entries.len() == 0 {
        assert(entries.filter(keep) == Seq::<ItemView>::empty());
        assert(listed(Seq::empty(), entries));
    } else {
        let front = entries.drop_last();
        let new = entries.last();
        let before = voice_list(front);
        let kept = front.filter(keep);
        law_voice_list_is_listed(front);
        if json_file(new) {
            let at = lemma_place(before, new);
            let after = before.insert(at, new);
            lemma_inserted(before, at, new);
            assert(entries.filter(keep) == kept.push(new));
            assert forall|name: Seq<char>| #[trigger] named(after, name) == named(
                kept.push(new),
                name,
            ) by {
                assert(named(after, name) == named(before.push(new), name));
                assert(named(before, name) == named(kept, name));
                assert(before.push(new).drop_last() == before);
                assert(kept.push(new).drop_last() == kept);
            }
            assert(listed(after, entries));
        } else {
            assert(entries.filter(keep) == kept);
            assert(listed(before, entries));
        }
    }
}

/// The place behind all entries whose names are not after that of an entry.
proof fn lemma_place(v: Seq<ItemView>, new: ItemView) -> (at: int)
    requires
        in_order(v),
    ensures
        0 <= at <= v.len(),
        at > 0 ==> text_le(v[at - 1].name, new.name),
        forall|j: int| at <= j < v.len() ==> !text_le(#[trigger] v[j].name, new.name),
    decreases v.len(),
{
    if v.len() == 0 || text_le(v.last().name, new.name) {
        v.len() as int
    } else {
        let front = v.drop_last();
        assert forall|i: int, j: int| 0 <= i <= j < front.len() implies text_le(
            #[trigger] front[i].name,
            #[trigger] front[j].name,
        ) by {
            assert(text_le(v[i].name, v[j].name));
        }
        let at = lemma_place(front, new);
        assert forall|j: int| at <= j < v.len() implies !text_le(
            #[trigger] v[j].name,
            new.name,
        ) by {
            if j < front.len() {
                assert(front[j] == v[j]);
            }
        }
        at
    }
}

/// Two rows in order that hold the same entries for each name are the same.
proof fn lemma_ordered_rows_agree(one: Seq<ItemView>, other: Seq<ItemView>)
    requires
        in_order(one),
        in_order(other),
        forall|name: Seq<char>| #[trigger] named(one, name) == named(other, name),
    ensures
        one == other,
    decreases one.len(),
{
    if one.len() == 0 {
        if other.len() > 0 {
            let last = other.last();
            assert(named(one, last.name) == named(other, last.name));
            lemma_filter_contains(other, |x: ItemView| x.name == last.name, last);
            lemma_filter_contains(one, |x: ItemView| x.name == last.name, last);
        }
        assert(one == other);
    } else {
        let last = one.last();
        assert(named(one, last.name) == named(other, last.name));
        lemma_filter_contains(one, |x: ItemView| x.name == last.name, last);
        lemma_filter_contains(other, |x: ItemView| x.name == last.name, last);
        assert(one.contains(last)) by {
            assert(one[one.len() - 1] == last);
        }
        let end = other.last();
        assert(other.contains(end)) by {
            assert(other[other.len() - 1] == end);
        }
        assert(named(one, end.name) == named(other, end.name));
        lemma_filter_contains(one, |x: ItemView| x.name == end.name, end);
        lemma_filter_contains(other, |x: ItemView| x.name == end.name, end);
        let i = choose|i: int| 0 <= i < other.len() && other[i] == last;
        let j = choose|j: int| 0 <= j < one.len() && one[j] == end;
        assert(text_le(other[i].name, other[other.len() - 1].name));
        assert(text_le(one[j].name, one[one.len() - 1].name));
        lemma_text_le_antisymmetric(last.name, end.name);
        lemma_last_picked(one, last.name);
        lemma_last_picked(other, last.name);
        let a = one.drop_last();
        let b = other.drop_last();
        assert(in_order(a)) by {
            assert forall|i: int, j: int| 0 <= i <= j < a.len() implies text_le(
                #[trigger] a[i].name,
                #[trigger] a[j].name,
            ) by {
                assert(text_le(one[i].name, one[j].name));
            }
        }
        assert(in_order(b)) by {
            assert forall|i: int, j: int| 0 <= i <= j < b.len() implies text_le(
                #[trigger] b[i].name,
                #[trigger] b[j].name,
            ) by {
                assert(text_le(other[i].name, other[j].name));
            }
        }
        assert forall|name: Seq<char>| #[trigger] named(a, name) == named(b, name) by {
            reveal(Seq::filter);
            assert(named(one, name) == named(other, name));
            if name == last.name {
                assert(named(one, name).drop_last() == named(a, name));
                assert(named(other, name).drop_last() == named(b, name));
            }
        }
        lemma_ordered_rows_agree(a, b);
        assert(one == a.push(last));
        assert(other == b.push(end));
    }
}

/// The last entry of a row is the last one with its name.
proof fn lemma_last_picked(v: Seq<ItemView>, name: Seq<char>)
    requires
        v.len() > 0,
        v.last().name == name,
    ensures
        named(v, name).len() > 0,
        named(v, name).last() == v.last(),
{
    reveal(Seq::filter);
}

// ---------------------------------------------------------------------------
// The download
// ---------------------------------------------------------------------------

/// What `serde_json::from_slice` finds wrong with bytes that are not JSON: the
/// text of its error; nothing for JSON.
pub uninterp spec fn json_error(bytes: Seq<u8>) -> Option<Seq<char>>;

/// `serde_json::from_slice` to a `serde_json::Value`: whether the bytes are
/// JSON is a function of the bytes, and so is the text of the error where they
/// are not.
#[verifier::external_body]
fn find_json_error(bytes: &Vec<u8>) -> (r: Option<String>)
    ensures
        opt_text(r) == json_error(bytes@),
{
    match serde_json::from_slice::<serde_json::Value>(bytes.as_slice()) {
        Ok(_) => None,
        Err(e) => Some(e.to_string()),
    }
}

/// A voice file that was downloaded.
#[derive(Debug)]
pub struct VoiceFile {
    pub name: String,
    pub content: Vec<u8>,
}

/// A [`VoiceFile`] by its characters and bytes.
#[verifier::ext_equal]
pub struct FileView {
    pub name: Seq<char>,
    pub content: Seq<u8>,
}

impl View for VoiceFile {
    type V = FileView;

    open spec fn view(&self) -> FileView {
        FileView { name: self.name@, content: self.content@ }
    }
}

/// The files by their characters and bytes.
pub open spec fn file_views(v: Seq<VoiceFile>) -> Seq<FileView> {
    Seq::new(v.len(), |i: int| v[i]@)
}

/// The error that a text is told with.
pub open spec fn told(message: Seq<char>) -> ErrorView {
    ErrorView::Other(message)
}

/// The downloaded file, unless something is wrong with it as JSON.
pub fn checked_file(name: &str, content: Vec<u8>, wrong: Option<String>) -> (r: Result<
    VoiceFile,
    AppError,
>)
    ensures
        match opt_text(wrong) {
            None => r matches Ok(file) && file@ == (FileView { name: name@, content: content@ }),
            Some(e) => r matches Err(err) && err@ == told(
                "Voice file "@ + name@ + " is not valid JSON: "@ + e,
            ),
        },
{
    match wrong {
        None => Ok(VoiceFile { name: name.to_string(), content }),
        Some(e) => {
            let mut message = concat3("Voice file ", name, " is not valid JSON: ");
            message.append(e.as_str());
            Err(AppError::Other(message))
        },
    }
}

/// The download of the voice files: the entries, which is next, and what was
/// downloaded.
#[derive(Debug)]
pub struct VoiceDownload {
    items: Vec<RepoContentItem>,
    files: Vec<VoiceFile>,
}

/// A [`VoiceDownload`] by its characters and bytes.
#[verifier::ext_equal]
pub struct VoiceDownloadView {
    pub items: Seq<ItemView>,
    pub files: Seq<FileView>,
}

impl View for VoiceDownload {
    type V = VoiceDownloadView;

    closed spec fn view(&self) -> VoiceDownloadView {
        VoiceDownloadView { items: items(self.items@), files: file_views(self.files@) }
    }
}

impl VoiceDownloadView {
    /// The files are those of the first entries.
    pub open spec fn wf(self) -> bool {
        &&& self.files.len() <= self.items.len()
        &&& forall|i: int|
            0 <= i < self.files.len() ==> #[trigger] self.files[i].name == self.items[i].name
    }

    /// Every file that was downloaded is JSON.
    pub open spec fn all_json(self) -> bool {
        forall|i: int|
            0 <= i < self.files.len() ==> json_error(#[trigger] self.files[i].content) is None
    }

    /// The entry whose file is next.
    pub open spec fn here(self) -> ItemView {
        self.items[self.files.len() as int]
    }

    /// What comes of the next file, from what came back for it.
    pub open spec fn received(self, reply: Reply<Vec<u8>>) -> Result<VoiceDownloadView, ErrorView> {
        let name = self.here().name;
        match reply {
            Reply::Unreachable(e) => Err(ErrorView::Network(e@)),
            Reply::Malformed(e) => Err(ErrorView::Network(e@)),
            Reply::Refused { status, body } => Err(
                told("Failed to download voice file "@ + name + ": "@ + status@),
            ),
            Reply::Received(content) => match json_error(content@) {
                Some(e) => Err(told("Voice file "@ + name + " is not valid JSON: "@ + e)),
                None => Ok(
                    VoiceDownloadView {
                        files: self.files.push(FileView { name, content: content@ }),
                        ..self
                    },
                ),
            },
        }
    }

    /// What is told before the next file.
    pub open spec fn downloading(self) -> UpdateView {
        let n = self.files.len();
        let total = self.items.len();
        UpdateView {
            progress: Progress {
                base_tenths: 991,
                span_tenths: 4,
                done: n as u64,
                total: total as u64,
            },
            message: "Downloading voice file "@ + self.here().name + " ("@ + decimal(n + 1) + "/"@
                + decimal(total) + ")"@,
            current_file: Some(self.here().name),
            total_files: Some(total as usize),
            processed_files: Some((n + 1) as usize),
        }
    }
}

/// There is a JSON file among the entries.
pub open spec fn has_json_file(entries: Seq<ItemView>) -> bool {
    exists|i: int| 0 <= i < entries.len() && json_file(#[trigger] entries[i])
}

/// The entries to download, from what came back for their list.
pub open spec fn list_outcome(reply: Reply<Vec<RepoContentItem>>) -> Result<
    Seq<ItemView>,
    ErrorView,
> {
    match reply {
        Reply::Unreachable(e) => Err(ErrorView::Network(e@)),
        Reply::Refused { status, body } => Err(
            told("Failed to fetch voice repo file list: "@ + status@),
        ),
        Reply::Malformed(e) => Err(told("Failed to parse voice repo file list: "@ + e@)),
        Reply::Received(entries) => if has_json_file(items(entries@)) {
            Ok(voice_list(items(entries@)))
        } else {
            Err(told("No JSON files found in voice repo sipdetect/LimbusDialogueBoxes_ZH"@))
        },
    }
}

/// A message about one file of several: `what`, the name, and the counts.
fn file_update(
    what: &str,
    name: &str,
    base_tenths: u32,
    span_tenths: u32,
    index: usize,
    total: usize,
) -> (r: ProgressUpdate)
    requires
        index < total,
    ensures
        r@ == (UpdateView {
            progress: Progress { base_tenths, span_tenths, done: index as u64, total: total as u64 },
            message: what@ + name@ + " ("@ + decimal(index as nat + 1) + "/"@ + decimal(
                total as nat,
            ) + ")"@,
            current_file: Some(name@),
            total_files: Some(total),
            processed_files: Some((index + 1) as usize),
        }),
{
    let mut message = concat3(what, name, " (");
    message.append(size_to_decimal(index + 1).as_str());
    message.append("/");
    message.append(size_to_decimal(total).as_str());
    message.append(")");
    ProgressUpdate {
        progress: Progress { base_tenths, span_tenths, done: index as u64, total: total as u64 },
        message,
        current_file: Some(name.to_string()),
        total_files: Some(total),
        processed_files: Some(index + 1),
    }
}

impl VoiceDownload {
    /// The download of the voice files, from what came back for their list.
    pub fn download_voice_files(reply: Reply<Vec<RepoContentItem>>) -> (r: Result<
        VoiceDownload,
        AppError,
    >)
        ensures
            match list_outcome(reply) {
                Ok(list) => {
                    &&& r is Ok
                    &&& r->Ok_0@ == (VoiceDownloadView { items: list, files: Seq::empty() })
                    &&& list.len() > 0
                    &&& r->Ok_0@.wf()
                    &&& r->Ok_0@.all_json()
                },
                Err(e) => r matches Err(err) && err@ == e,
            },
    {
        match reply {
            Reply::Unreachable(e) => Err(AppError::Network(e)),
            Reply::Refused { status, body } => Err(
                AppError::other("Failed to fetch voice repo file list: ", status.as_str()),
            ),
            Reply::Malformed(e) => Err(
                AppError::other("Failed to parse voice repo file list: ", e.as_str()),
            ),
            Reply::Received(entries) => {
                let ghost all = items(entries@);
                let list = list_voice_files(entries);
                let ghost kept = items(list@);
                proof {
                    law_voice_list_is_listed(all);
                    law_list_is_determined(kept, voice_list(all), all);
                }
                if list.len() == 0 {
                    proof {
                        assert forall|i: int| 0 <= i < all.len() implies !json_file(
                            #[trigger] all[i],
                        ) by {
                            law_listed_are_the_json_files(kept, all, all[i]);
                            assert(all.contains(all[i]));
                        }
                    }
                    return Err(
                        AppError::Other(
                            "No JSON files found in voice repo sipdetect/LimbusDialogueBoxes_ZH".to_string(),
                        ),
                    );
                }
                proof {
                    let first = kept[0];
                    assert(kept.contains(first));
                    law_listed_are_the_json_files(kept, all, first);
                    let i = choose|i: int| 0 <= i < all.len() && all[i] == first;
                    assert(json_file(all[i]));
                }
                let download = VoiceDownload { items: list, files: Vec::new() };
                assert(download@.files == Seq::<FileView>::empty());
                Ok(download)
            },
        }
    }

    /// Where to get the next file, and what is told before it; nothing where
    /// every file was downloaded.
    pub fn request(&self, cancel_flag: Option<bool>) -> (r: Result<
        Option<(String, ProgressUpdate)>,
        AppError,
    >)
        requires
            self@.wf(),
        ensures
            if self@.files.len() == self@.items.len() {
                r matches Ok(None)
            } else if cancel_flag == Some(true) {
                r matches Err(e) && e@ == told("Conversion cancelled by user"@)
            } else {
                match self@.here().download_url {
                    None => r matches Err(e) && e@ == told(
                        "Missing download_url for file "@ + self@.here().name,
                    ),
                    Some(url) => r matches Ok(Some(asked)) && asked.0@ == url && asked.1@
                        == self@.downloading() && asked.1.progress.wf(),
                }
            },
            r matches Ok(Some(asked)) ==> {
                let n = self@.files.len();
                &&& n < self@.items.len()
                &&& self@.items[n as int].download_url == Some(asked.0@)
                &&& asked.1@.current_file == Some(self@.items[n as int].name)
                &&& asked.1@.total_files == Some(self@.items.len() as usize)
                &&& asked.1@.processed_files == Some((n + 1) as usize)
            },
    {
        let index = self.files.len();
        let total = self.items.len();
        assert(self@.files.len() == index && self@.items.len() == total);
        if index == total {
            return Ok(None);
        }
        if let Err(e) = check_cancelled(cancel_flag) {
            return Err(e);
        }
        let name = self.items[index].name.as_str();
        match &self.items[index].download_url {
            None => Err(AppError::other("Missing download_url for file ", name)),
            Some(url) => Ok(
                Some(
                    (
                        url.as_str().to_string(),
                        file_update("Downloading voice file ", name, 991, 4, index, total),
                    ),
                ),
            ),
        }
    }

    /// Takes what came back for the next file.
    pub fn receive(&mut self, reply: Reply<Vec<u8>>) -> (r: Result<(), AppError>)
        requires
            old(self)@.wf(),
            old(self)@.files.len() < old(self)@.items.len(),
        ensures
            final(self)@.wf(),
            old(self)@.all_json() ==> final(self)@.all_json(),
            match old(self)@.received(reply) {
                Ok(after) => r is Ok && final(self)@ == after,
                Err(e) => r matches Err(err) && err@ == e && final(self)@ == old(self)@,
            },
            ({
                let name = old(self)@.items[old(self)@.files.len() as int].name;
                match reply {
                    Reply::Unreachable(e) => r matches Err(err) && err@ == ErrorView::Network(e@),
                    Reply::Malformed(e) => r matches Err(err) && err@ == ErrorView::Network(e@),
                    Reply::Refused { status, body } => r matches Err(err) && err@
                        == ErrorView::Other(
                        "Failed to download voice file "@ + name + ": "@ + status@,
                    ),
                    Reply::Received(content) => match json_error(content@) {
                        Some(e) => r matches Err(err) && err@ == ErrorView::Other(
                            "Voice file "@ + name + " is not valid JSON: "@ + e,
                        ),
                        None => r is Ok && final(self)@.files == old(self)@.files.push(
                            FileView { name, content: content@ },
                        ) && final(self)@.items == old(self)@.items,
                    },
                }
            }),
    {
        let index = self.files.len();
        let ghost had = self@.files;
        assert(had.len() == index && self@.items.len() == self.items@.len());
        let name = self.items[index].name.as_str();
        match reply {
            Reply::Unreachable(e) => Err(AppError::Network(e)),
            Reply::Malformed(e) => Err(AppError::Network(e)),
            Reply::Refused { status, body } => {
                let mut message = concat3("Failed to download voice file ", name, ": ");
                message.append(status.as_str());
                Err(AppError::Other(message))
            },
            Reply::Received(content) => {
                let wrong = find_json_error(&content);
                match checked_file(name, content, wrong) {
                    Err(e) => Err(e),
                    Ok(file) => {
                        self.files.push(file);
                        assert(self@.files == had.push(file@));
                        Ok(())
                    },
                }
            },
        }
    }

    /// Whether every file was downloaded.
    pub fn complete(&self) -> (r: bool)
        ensures
            r == (self@.files.len() == self@.items.len()),
    {
        assert(self@.files.len() == self.files@.len() && self@.items.len() == self.items@.len());
        self.files.len() == self.items.len()
    }

    /// The files, once every one was downloaded.
    pub fn finish(self) -> (r: Vec<VoiceFile>)
        requires
            self@.files.len() == self@.items.len(),
        ensures
            file_views(r@) == self@.files,
    {
        self.files
    }
}

// ---------------------------------------------------------------------------
// The date of the latest change
// ---------------------------------------------------------------------------

/// The date of the latest change, from what came back for the changes: their
/// timestamps, the latest first.
pub fn get_voice_latest_update_date(reply: Reply<Vec<String>>) -> (r: Result<
    Option<String>,
    AppError,
>)
    requires
        reply matches Reply::Received(stamps) ==> stamps@.len() > 0 ==> date_can_be_cut(
            stamps@[0]@,
        ),
    ensures
        match reply {
            Reply::Unreachable(e) => r matches Err(err) && err@ == ErrorView::Network(e@),
            Reply::Refused { status, body } => r matches Err(err) && err@ == told(
                "Failed to fetch voice repo commits: "@ + status@,
            ),
            Reply::Malformed(e) => r matches Err(err) && err@ == told(
                "Failed to parse voice repo commits: "@ + e@,
            ),
            Reply::Received(stamps) => r matches Ok(date) && opt_text(date) == (if stamps@.len()
                > 0 {
                normalized_date(stamps@[0]@)
            } else {
                None
            }),
        },
{
    match reply {
        Reply::Unreachable(e) => Err(AppError::Network(e)),
        Reply::Refused { status, body } => Err(
            AppError::other("Failed to fetch voice repo commits: ", status.as_str()),
        ),
        Reply::Malformed(e) => Err(
            AppError::other("Failed to parse voice repo commits: ", e.as_str()),
        ),
        Reply::Received(stamps) => if stamps.len() > 0 {
            Ok(normalize_release_date(stamps[0].as_str()))
        } else {
            Ok(None)
        },
    }
}

/// The date to record: none where it could not be had.
pub open spec fn recorded_date(date: Result<Option<String>, AppError>) -> Option<Seq<char>> {
    match date {
        Ok(found) => opt_text(found),
        Err(_) => None,
    }
}

/// The date to record: none where it could not be had.
pub fn date_to_record(date: Result<Option<String>, AppError>) -> (r: Option<String>)
    ensures
        opt_text(r) == recorded_date(date),
{
    match date {
        Ok(found) => found,
        Err(_) => None,
    }
}

// ---------------------------------------------------------------------------
// The installation
// ---------------------------------------------------------------------------

/// The files of an older arrangement, which are to go.
pub open spec fn old_names() -> Seq<Seq<char>> {
    seq![
        "BattleSpeechBubbleDlg.json"@,
        "BattleSpeechBubbleDlg_Cultivation.json"@,
        "BattleSpeechBubbleDlg_mowe.json"@,
    ]
}

/// The removal of the old files, once every new one was downloaded: the new
/// files, and which old one is next.
#[derive(Debug)]
pub struct VoiceCleanup {
    files: Vec<VoiceFile>,
    next: usize,
}

/// A [`VoiceCleanup`] by its characters and bytes.
#[verifier::ext_equal]
pub struct VoiceCleanupView {
    pub files: Seq<FileView>,
    pub next: nat,
}

impl View for VoiceCleanup {
    type V = VoiceCleanupView;

    closed spec fn view(&self) -> VoiceCleanupView {
        VoiceCleanupView { files: file_views(self.files@), next: self.next as nat }
    }
}

impl VoiceCleanupView {
    /// What comes of the removal of the next old file.
    pub open spec fn removed(self, outcome: Result<(), String>) -> Result<
        VoiceCleanupView,
        ErrorView,
    > {
        match outcome {
            Ok(()) => Ok(VoiceCleanupView { next: self.next + 1, ..self }),
            Err(e) => Err(
                told(
                    "Failed to remove old voice file "@ + old_names()[self.next as int] + ": "@
                        + e@,
                ),
            ),
        }
    }
}

impl VoiceCleanup {
    /// The removal of the old files, where the download succeeded. A download
    /// that failed gives none.
    pub fn after_download(files: Result<Vec<VoiceFile>, AppError>) -> (r: Result<
        VoiceCleanup,
        AppError,
    >)
        ensures
            match files {
                Err(e) => r matches Err(err) && err@ == e@,
                Ok(v) => r matches Ok(cleanup) && cleanup@ == (VoiceCleanupView {
                    files: file_views(v@),
                    next: 0,
                }),
            },
    {
        match files {
            Err(e) => Err(e),
            Ok(files) => Ok(VoiceCleanup { files, next: 0 }),
        }
    }

    /// The old file that is next to go; nothing where all are gone.
    pub fn current(&self) -> (r: Option<String>)
        ensures
            match r {
                Some(name) => self@.next < old_names().len() && name@
                    == old_names()[self@.next as int],
                None => self@.next >= old_names().len(),
            },
    {
        if self.next == 0 {
            Some("BattleSpeechBubbleDlg.json".to_string())
        } else if self.next == 1 {
            Some("BattleSpeechBubbleDlg_Cultivation.json".to_string())
        } else if self.next == 2 {
            Some("BattleSpeechBubbleDlg_mowe.json".to_string())
        } else {
            None
        }
    }

    /// Takes note of what came of the removal of the next old file.
    pub fn cleanup_old_voice_files(&mut self, outcome: Result<(), String>) -> (r: Result<
        (),
        AppError,
    >)
        requires
            old(self)@.next < old_names().len(),
        ensures
            match old(self)@.removed(outcome) {
                Ok(after) => r is Ok && final(self)@ == after,
                Err(e) => r matches Err(err) && err@ == e && final(self)@ == old(self)@,
            },
    {
        match outcome {
            Ok(()) => {
                self.next = self.next + 1;
                Ok(())
            },
            Err(e) => {
                let name = match self.current() {
                    Some(name) => name,
                    None => String::new(),
                };
                let mut message = concat3("Failed to remove old voice file ", name.as_str(), ": ");
                message.append(e.as_str());
                Err(AppError::Other(message))
            },
        }
    }

    /// The installation of the new files, once all old ones are gone.
    pub fn finish(self) -> (r: VoiceInstall)
        requires
            self@.next == old_names().len(),
        ensures
            r@ == (VoiceInstallView { files: self@.files, next: 0 }),
            r@.wf(),
    {
        VoiceInstall { files: self.files, next: 0 }
    }
}

/// The installation of the voice files: the files, and which is next.
#[derive(Debug)]
pub struct VoiceInstall {
    files: Vec<VoiceFile>,
    next: usize,
}

/// A [`VoiceInstall`] by its characters and bytes.
#[verifier::ext_equal]
pub struct VoiceInstallView {
    pub files: Seq<FileView>,
    pub next: nat,
}

impl View for VoiceInstall {
    type V = VoiceInstallView;

    closed spec fn view(&self) -> VoiceInstallView {
        VoiceInstallView { files: file_views(self.files@), next: self.next as nat }
    }
}

impl VoiceInstallView {
    /// The next file is one of the files, or there is none.
    pub open spec fn wf(self) -> bool {
        self.next <= self.files.len()
    }

    /// What comes of writing the next file.
    pub open spec fn written(self, outcome: Result<(), String>) -> Result<
        VoiceInstallView,
        ErrorView,
    > {
        match outcome {
            Ok(()) => Ok(VoiceInstallView { next: self.next + 1, ..self }),
            Err(e) => Err(
                told(
                    "Failed to write voice file "@ + self.files[self.next as int].name + ": "@ + e@,
                ),
            ),
        }
    }

    /// What is told once the next file is written.
    pub open spec fn installed(self) -> UpdateView {
        let name = self.files[self.next as int].name;
        UpdateView {
            progress: Progress {
                base_tenths: 996,
                span_tenths: 3,
                done: self.next as u64,
                total: self.files.len() as u64,
            },
            message: "Installed voice file "@ + name + " ("@ + decimal(self.next + 1) + "/"@
                + decimal(self.files.len()) + ")"@,
            current_file: Some(name),
            total_files: Some(self.files.len() as usize),
            processed_files: Some((self.next + 1) as usize),
        }
    }
}

impl VoiceInstall {
    /// The file to write next; nothing where every file was written.
    pub fn current(&self, cancel_flag: Option<bool>) -> (r: Result<Option<&VoiceFile>, AppError>)
        requires
            self@.wf(),
        ensures
            if self@.next == self@.files.len() {
                r matches Ok(None)
            } else if cancel_flag == Some(true) {
                r matches Err(e) && e@ == told("Conversion cancelled by user"@)
            } else {
                r matches Ok(Some(file)) && file@ == self@.files[self@.next as int]
            },
    {
        assert(self@.files.len() == self.files@.len());
        if self.next == self.files.len() {
            return Ok(None);
        }
        match check_cancelled(cancel_flag) {
            Err(e) => Err(e),
            Ok(()) => Ok(Some(&self.files[self.next])),
        }
    }

    /// Takes note of what came of writing the next file.
    pub fn file_written(&mut self, outcome: Result<(), String>) -> (r: Result<
        ProgressUpdate,
        AppError,
    >)
        requires
            old(self)@.wf(),
            old(self)@.next < old(self)@.files.len(),
        ensures
            final(self)@.wf(),
            match old(self)@.written(outcome) {
                Ok(after) => r matches Ok(update) && update@ == old(self)@.installed()
                    && update.progress.wf() && final(self)@ == after,
                Err(e) => r matches Err(err) && err@ == e && final(self)@ == old(self)@,
            },
    {
        let index = self.next;
        let total = self.files.len();
        assert(self@.files.len() == total);
        let name = self.files[index].name.as_str();
        match outcome {
            Err(e) => {
                let mut message = concat3("Failed to write voice file ", name, ": ");
                message.append(e.as_str());
                Err(AppError::Other(message))
            },
            Ok(()) => {
                let update = file_update("Installed voice file ", name, 996, 3, index, total);
                self.next = index + 1;
                Ok(update)
            },
        }
    }
}

// ---------------------------------------------------------------------------
// What the parts keep
// ---------------------------------------------------------------------------

/// A list of voice files holds, for every name, just the entries that are files
/// whose names end with `.json`, as often as they stand among the entries and in
/// the order in which they stand there; and its names never go back.
pub proof fn law_list_sorts_the_json_files(
    r: Seq<ItemView>,
    entries: Seq<ItemView>,
    name: Seq<char>,
    i: int,
    j: int,
)
    requires
        listed(r, entries),
    ensures
        r.filter(|item: ItemView| item.name == name) == entries.filter(
            |item: ItemView|
                item.item_type == "file"@ && ".json"@.is_suffix_of(item.name) && item.name == name,
        ),
        0 <= i <= j < r.len() ==> text_le(r[i].name, r[j].name),
{
    let keep = |item: ItemView| json_file(item);
    let at = |item: ItemView| item.name == name;
    let both = |item: ItemView|
        item.item_type == "file"@ && ".json"@.is_suffix_of(item.name) && item.name == name;
    assert(named(r, name) == named(entries.filter(keep), name));
    lemma_filter_twice(entries, keep, at, both);
}

proof fn lemma_filter_twice(
    v: Seq<ItemView>,
    f: spec_fn(ItemView) -> bool,
    g: spec_fn(ItemView) -> bool,
    both: spec_fn(ItemView) -> bool,
)
    requires
        forall|item: ItemView| #[trigger] both(item) <==> f(item) && g(item),
    ensures
        v.filter(f).filter(g) == v.filter(both),
    decreases v.len(),
{
    reveal(Seq::filter);
    if v.len() > 0 {
        let front = v.drop_last();
        lemma_filter_twice(front, f, g, both);
        assert(both(v.last()) <==> f(v.last()) && g(v.last()));
        if f(v.last()) {
            assert(front.filter(f).push(v.last()).drop_last() == front.filter(f));
        }
    }
}

/// The file that is asked for next, the one that is told of, and the one that
/// is kept are the same: the first one of the list that was not downloaded.
pub proof fn law_the_file_asked_for_is_the_one_kept(
    download: VoiceDownloadView,
    content: Vec<u8>,
)
    requires
        download.wf(),
        download.files.len() < download.items.len(),
        json_error(content@) is None,
    ensures
        ({
            let n = download.files.len();
            let item = download.items[n as int];
            &&& download.here().name == item.name
            &&& download.here().download_url == item.download_url
            &&& download.downloading().current_file == Some(item.name)
            &&& download.downloading().message == "Downloading voice file "@ + item.name + " ("@
                + decimal(n + 1) + "/"@ + decimal(download.items.len()) + ")"@
            &&& download.received(Reply::Received(content)) == Ok::<VoiceDownloadView, ErrorView>(
                VoiceDownloadView {
                    items: download.items,
                    files: download.files.push(FileView { name: item.name, content: content@ }),
                },
            )
        }),
{
}

/// The file that is told of as installed is the one that was written.
pub proof fn law_the_file_installed_is_the_one_told(install: VoiceInstallView)
    requires
        install.next < install.files.len(),
    ensures
        ({
            let file = install.files[install.next as int];
            &&& install.installed().current_file == Some(file.name)
            &&& install.installed().message == "Installed voice file "@ + file.name + " ("@
                + decimal(install.next + 1) + "/"@ + decimal(install.files.len()) + ")"@
            &&& install.written(Ok(())) == Ok::<VoiceInstallView, ErrorView>(
                VoiceInstallView { files: install.files, next: install.next + 1 },
            )
        }),
{
}

/// The files share the end of the work: their download four tenths of a percent,
/// from 99.1 on, and their installation three, from 99.6 on, each file as much.
pub proof fn law_voice_files_share_the_end_of_the_work(
    download: VoiceDownloadView,
    install: VoiceInstallView,
)
    requires
        download.files.len() < download.items.len() <= usize::MAX,
        install.next < install.files.len() <= usize::MAX,
    ensures
        ({
            let update = download.downloading();
            &&& update.progress.base_tenths == 991 && update.progress.span_tenths == 4
            &&& update.progress.done == download.files.len()
            &&& update.progress.total == download.items.len()
            &&& update.total_files matches Some(n) && n == download.items.len()
            &&& update.processed_files matches Some(n) && n == download.files.len() + 1
        }),
        ({
            let update = install.installed();
            &&& update.progress.base_tenths == 996 && update.progress.span_tenths == 3
            &&& update.progress.done == install.next
            &&& update.progress.total == install.files.len()
            &&& update.total_files matches Some(n) && n == install.files.len()
            &&& update.processed_files matches Some(n) && n == install.next + 1
        }),
{
}

/// What is wrong with a file is told with the file's own name.
pub proof fn law_failed_file_is_told_by_name(
    download: VoiceDownloadView,
    reply: Reply<Vec<u8>>,
    install: VoiceInstallView,
    error: String,
)
    requires
        download.files.len() < download.items.len(),
        install.next < install.files.len(),
    ensures
        ({
            let name = download.items[download.files.len() as int].name;
            let came = download.received(reply);
            match reply {
                Reply::Unreachable(e) => came == Err::<VoiceDownloadView, ErrorView>(
                    ErrorView::Network(e@),
                ),
                Reply::Malformed(e) => came == Err::<VoiceDownloadView, ErrorView>(
                    ErrorView::Network(e@),
                ),
                Reply::Refused { status, body } => came == Err::<VoiceDownloadView, ErrorView>(
                    ErrorView::Other(
                        "Failed to download voice file "@ + name + ": "@ + status@,
                    ),
                ),
                Reply::Received(content) => json_error(content@) matches Some(e) ==> came == Err::<
                    VoiceDownloadView,
                    ErrorView,
                >(ErrorView::Other("Voice file "@ + name + " is not valid JSON: "@ + e)),
            }
        }),
        install.written(Err(error)) == Err::<VoiceInstallView, ErrorView>(
            ErrorView::Other(
                "Failed to write voice file "@ + install.files[install.next as int].name + ": "@
                    + error@,
            ),
        ),
{
}

/// The old files are these three, removed in this order; each that cannot be removed
/// is told by its name, and the new files wait unchanged meanwhile.
pub proof fn law_old_files_go_one_by_one(cleanup: VoiceCleanupView, error: String)
    requires
        cleanup.next < 3,
    ensures
        old_names() == seq![
            "BattleSpeechBubbleDlg.json"@,
            "BattleSpeechBubbleDlg_Cultivation.json"@,
            "BattleSpeechBubbleDlg_mowe.json"@,
        ],
        cleanup.removed(Ok(())) == Ok::<VoiceCleanupView, ErrorView>(
            (VoiceCleanupView { files: cleanup.files, next: cleanup.next + 1 }),
        ),
        cleanup.removed(Err(error)) == Err::<VoiceCleanupView, ErrorView>(
            ErrorView::Other(
                "Failed to remove old voice file "@ + old_names()[cleanup.next as int] + ": "@
                    + error@,
            ),
        ),
{
}

/// The list of the files is what came back, sorted; where it did not come, why is
/// told, and where it holds no file to download, that.
pub proof fn law_list_comes_or_is_told(entries: Vec<RepoContentItem>, text: String, body: Option<String>)
    ensures
        list_outcome(Reply::Unreachable(text)) == Err::<Seq<ItemView>, ErrorView>(
            ErrorView::Network(text@),
        ),
        list_outcome(Reply::Refused { status: text, body }) == Err::<Seq<ItemView>, ErrorView>(
            ErrorView::Other("Failed to fetch voice repo file list: "@ + text@),
        ),
        list_outcome(Reply::Malformed(text)) == Err::<Seq<ItemView>, ErrorView>(
            ErrorView::Other("Failed to parse voice repo file list: "@ + text@),
        ),
        match list_outcome(Reply::Received(entries)) {
            Ok(list) => listed(list, items(entries@)) && list.len() > 0,
            Err(e) => e == ErrorView::Other(
                "No JSON files found in voice repo sipdetect/LimbusDialogueBoxes_ZH"@,
            ) && (forall|i: int|
                0 <= i < entries@.len() ==> (#[trigger] entries@[i]).item_type@ != "file"@
                    || !".json"@.is_suffix_of(entries@[i].name@)),
        },
{
    let all = items(entries@);
    law_voice_list_is_listed(all);
    if has_json_file(all) {
        let i = choose|i: int| 0 <= i < all.len() && json_file(#[trigger] all[i]);
        assert(all.contains(all[i]));
        law_listed_are_the_json_files(voice_list(all), all, all[i]);
    } else {
        assert forall|i: int| 0 <= i < entries@.len() implies (
        #[trigger] entries@[i]).item_type@ != "file"@ || !".json"@.is_suffix_of(
            entries@[i].name@,
        ) by {
            assert(!json_file(all[i]));
        }
    }
}

/// What is said of the characters and bytes of entries and files is said of all of
/// them.
pub proof fn law_voice_files_are_seen_whole(
    entry: RepoContentItem,
    file: VoiceFile,
    entries: Seq<RepoContentItem>,
    files: Seq<VoiceFile>,
)
    ensures
        entry@.name == entry.name@,
        entry@.download_url == opt_text(entry.download_url),
        entry@.item_type == entry.item_type@,
        file@.name == file.name@,
        file@.content == file.content@,
        items(entries).len() == entries.len(),
        forall|i: int| 0 <= i < entries.len() ==> (#[trigger] items(entries)[i]) == entries[i]@,
        file_views(files).len() == files.len(),
        forall|i: int| 0 <= i < files.len() ==> (#[trigger] file_views(files)[i]) == files[i]@,
{
}

} // verus!
