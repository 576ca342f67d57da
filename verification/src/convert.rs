//! The conversion of texts from Simplified to Traditional Chinese, file by
//! file.
use vstd::prelude::*;
use vstd::utf8::{decode_utf8, encode_utf8, valid_utf8};

use crate::error::{AppError, ErrorView};
use crate::numbers::{decimal, size_to_decimal};
use crate::progress::{fixed, Progress, ProgressUpdate, UpdateView};
use crate::release::check_cancelled;
use crate::text::{concat, texts};

verus! {

// ---------------------------------------------------------------------------
// One text
// ---------------------------------------------------------------------------

/// What `Dict::replace_all` of `simplecc`'s built-in dictionary `S2TWP` makes
/// of a text: Traditional Chinese of Taiwan, with the idioms of Taiwan.
pub uninterp spec fn s2twp(text: Seq<char>) -> Seq<char>;

/// What `String::from_utf8_lossy` makes of bytes: the text in which
/// replacement characters stand for what is not UTF-8.
pub uninterp spec fn lossy_text(bytes: Seq<u8>) -> Seq<char>;

/// `Dict::replace_all` of `simplecc`'s built-in dictionary `S2TWP`: a function
/// of the text, since the dictionary is fixed.
#[verifier::external_body]
fn replace_all(text: &str) -> (r: String)
    ensures
        r@ == s2twp(text@),
{
    simplecc::dicts::S2TWP.replace_all(text)
}

/// `String::from_utf8`: the text that the bytes encode, or the bytes
/// themselves where they are not UTF-8.
#[verifier::external_body]
fn from_utf8(bytes: Vec<u8>) -> (r: Result<String, Vec<u8>>)
    ensures
        r is Ok <==> valid_utf8(bytes@),
        r matches Ok(text) ==> text@ == decode_utf8(bytes@),
        r matches Err(same) ==> same@ == bytes@,
{
    match String::from_utf8(bytes) {
        Ok(text) => Ok(text),
        Err(e) => Err(e.into_bytes()),
    }
}

/// `String::from_utf8_lossy`: a text that is a function of the bytes.
#[verifier::external_body]
fn from_utf8_lossy(bytes: &Vec<u8>) -> (r: String)
    ensures
        r@ == lossy_text(bytes@),
{
    String::from_utf8_lossy(bytes.as_slice()).into_owned()
}

/// The text that a file holds: what its bytes encode or, where they are not
/// UTF-8, what can be made of them.
pub open spec fn content_of(bytes: Seq<u8>) -> Seq<char> {
    if valid_utf8(bytes) {
        decode_utf8(bytes)
    } else {
        lossy_text(bytes)
    }
}

/// The text that a file holds.
pub fn read_text(bytes: Vec<u8>) -> (r: String)
    ensures
        r@ == content_of(bytes@),
{
    match from_utf8(bytes) {
        Ok(text) => text,
        Err(bytes) => from_utf8_lossy(&bytes),
    }
}

/// The text of a file in Traditional Chinese.
pub fn convert_file(bytes: Vec<u8>) -> (r: String)
    ensures
        r@ == s2twp(content_of(bytes@)),
{
    replace_all(read_text(bytes).as_str())
}

/// A file that was written as UTF-8 is read as the text that was written, so
/// exactly that text is converted.
pub proof fn law_utf8_files_are_read_as_written(text: Seq<char>)
    ensures
        content_of(encode_utf8(text)) == text,
{
    vstd::utf8::encode_utf8_valid_utf8(text);
    vstd::utf8::encode_utf8_decode_utf8(text);
}

// ---------------------------------------------------------------------------
// All files
// ---------------------------------------------------------------------------

/// The conversion of files: their paths, which is next, and how many failed.
#[derive(Debug)]
pub struct Conversion {
    files: Vec<String>,
    next: usize,
    errors: usize,
}

/// A [`Conversion`] by its characters.
#[verifier::ext_equal]
pub struct ConversionView {
    pub files: Seq<Seq<char>>,
    pub next: nat,
    pub errors: nat,
}

impl View for Conversion {
    type V = ConversionView;

    closed spec fn view(&self) -> ConversionView {
        ConversionView {
            files: texts(self.files@),
            next: self.next as nat,
            errors: self.errors as nat,
        }
    }
}

/// The error of a step, if it failed.
pub open spec fn failure(outcome: Result<(), AppError>) -> Option<ErrorView> {
    match outcome {
        Ok(()) => None,
        Err(e) => Some(e@),
    }
}

impl ConversionView {
    /// No more files failed than were looked at.
    pub open spec fn wf(self) -> bool {
        self.errors <= self.next <= self.files.len()
    }

    /// The conversion before the first file.
    pub open spec fn begin(files: Seq<Seq<char>>) -> ConversionView {
        ConversionView { files, next: 0, errors: 0 }
    }

    /// The conversion behind a file that was converted or failed.
    pub open spec fn counted(self, outcome: Option<ErrorView>) -> ConversionView {
        ConversionView {
            next: self.next + 1,
            errors: if outcome is Some {
                self.errors + 1
            } else {
                self.errors
            },
            ..self
        }
    }

    /// What comes of a file that was converted or failed: the conversion goes
    /// on, or ends with the error of the file that is one failure too many.
    pub open spec fn after(self, outcome: Option<ErrorView>) -> Result<ConversionView, ErrorView> {
        match outcome {
            Some(e) if self.errors + 1 > 10 => Err(e),
            _ => Ok(self.counted(outcome)),
        }
    }

    /// What is told of the next file.
    pub open spec fn converting(self, file_name: Seq<char>) -> UpdateView {
        UpdateView {
            progress: Progress {
                base_tenths: 600,
                span_tenths: 300,
                done: self.next as u64,
                total: self.files.len() as u64,
            },
            message: "Converting... "@ + decimal(self.next + 1) + " / "@ + decimal(self.files.len())
                + " files"@,
            current_file: Some(file_name),
            total_files: Some(self.files.len() as usize),
            processed_files: Some((self.next + 1) as usize),
        }
    }
}

/// What is told before the first file.
pub open spec fn conversion_begins(files: nat) -> UpdateView {
    UpdateView {
        progress: Progress::at(600),
        message: "Starting file conversion..."@,
        current_file: None,
        total_files: Some(files as usize),
        processed_files: Some(0usize),
    }
}

/// What is told behind the last file.
pub open spec fn conversion_done(files: nat) -> UpdateView {
    UpdateView {
        progress: Progress::at(900),
        message: "File conversion complete!"@,
        current_file: None,
        total_files: Some(files as usize),
        processed_files: Some(files as usize),
    }
}

impl Conversion {
    /// The conversion of files, and what is told before it.
    pub fn process_files(files: Vec<String>) -> (r: (Conversion, ProgressUpdate))
        ensures
            r.0@ == ConversionView::begin(texts(files@)),
            r.0@.wf(),
            r.1@ == conversion_begins(files@.len()),
    {
        let update = ProgressUpdate {
            progress: fixed(600),
            message: "Starting file conversion...".to_string(),
            current_file: None,
            total_files: Some(files.len()),
            processed_files: Some(0),
        };
        (Conversion { files, next: 0, errors: 0 }, update)
    }

    /// The path of the next file, if there is one.
    pub fn current(&self) -> (r: Option<String>)
        requires
            self@.wf(),
        ensures
            match r {
                Some(path) => self@.next < self@.files.len() && path@
                    == self@.files[self@.next as int],
                None => self@.next == self@.files.len(),
            },
    {
        assert(texts(self.files@).len() == self.files@.len());
        if self.next < self.files.len() {
            Some(self.files[self.next].as_str().to_string())
        } else {
            None
        }
    }

    /// What is told before the next file, whose name is `file_name`, unless
    /// the work was told to stop.
    pub fn announce(&self, cancel_flag: Option<bool>, file_name: &str) -> (r: Result<
        ProgressUpdate,
        AppError,
    >)
        requires
            self@.wf(),
            self@.next < self@.files.len(),
        ensures
            if cancel_flag == Some(true) {
                r matches Err(e) && e@ == ErrorView::Other("Conversion cancelled by user"@)
            } else {
                r matches Ok(update) && update@ == self@.converting(file_name@)
                    && update.progress.wf()
            },
    {
        if let Err(e) = check_cancelled(cancel_flag) {
            return Err(e);
        }
        assert(texts(self.files@).len() == self.files@.len());
        let total = self.files.len();
        let number = self.next + 1;
        let mut message = concat("Converting... ", size_to_decimal(number).as_str());
        message.append(" / ");
        message.append(size_to_decimal(total).as_str());
        message.append(" files");
        Ok(
            ProgressUpdate {
                progress: Progress {
                    base_tenths: 600,
                    span_tenths: 300,
                    done: self.next as u64,
                    total: total as u64,
                },
                message,
                current_file: Some(file_name.to_string()),
                total_files: Some(total),
                processed_files: Some(number),
            },
        )
    }

    /// Takes note of what came of the next file. Ten files may fail; one more
    /// ends the conversion with its error.
    pub fn record(&mut self, outcome: Result<(), AppError>) -> (r: Result<(), AppError>)
        requires
            old(self)@.wf(),
            old(self)@.next < old(self)@.files.len(),
        ensures
            final(self)@.wf(),
            final(self)@ == old(self)@.counted(failure(outcome)),
            match old(self)@.after(failure(outcome)) {
                Ok(_) => r is Ok,
                Err(e) => failure(r) == Some(e),
            },
    {
        assert(self.next < self.files.len());
        self.next = self.next + 1;
        if let Err(e) = outcome {
            self.errors = self.errors + 1;
            if self.errors > 10 {
                return Err(e);
            }
        }
        Ok(())
    }

    /// What is told behind the last file.
    pub fn finish(&self) -> (r: ProgressUpdate)
        requires
            self@.next == self@.files.len(),
        ensures
            r@ == conversion_done(self@.files.len()),
    {
        assert(texts(self.files@).len() == self.files@.len());
        ProgressUpdate {
            progress: fixed(900),
            message: "File conversion complete!".to_string(),
            current_file: None,
            total_files: Some(self.files.len()),
            processed_files: Some(self.files.len()),
        }
    }
}

/// What a conversion comes to when its files, in order, have these outcomes.
pub open spec fn conversion_run(
    files: Seq<Seq<char>>,
    outcomes: Seq<Option<ErrorView>>,
) -> Result<ConversionView, ErrorView>
    decreases outcomes.len(),
{
    if outcomes.len() == 0 {
        Ok(ConversionView::begin(files))
    } else {
        match conversion_run(files, outcomes.drop_last()) {
            Err(e) => Err(e),
            Ok(state) => state.after(outcomes.last()),
        }
    }
}

/// The errors among the outcomes, in order.
pub open spec fn failures(outcomes: Seq<Option<ErrorView>>) -> Seq<ErrorView>
    decreases outcomes.len(),
{
    if outcomes.len() == 0 {
        Seq::empty()
    } else {
        match outcomes.last() {
            Some(e) => failures(outcomes.drop_last()).push(e),
            None => failures(outcomes.drop_last()),
        }
    }
}

/// A conversion ends with an error just if more than ten files fail, and then
/// with the error of the eleventh of them. Else it gets to the end and knows
/// how many failed.
pub proof fn law_ten_files_may_fail(files: Seq<Seq<char>>, outcomes: Seq<Option<ErrorView>>)
    ensures
        conversion_run(files, outcomes) == (if failures(outcomes).len() > 10 {
            Err(failures(outcomes)[10])
        } else {
            Ok(ConversionView { files, next: outcomes.len(), errors: failures(outcomes).len() })
        }),
    decreases outcomes.len(),
{
    if outcomes.len() > 0 {
        law_ten_files_may_fail(files, outcomes.drop_last());
    }
}

/// Bytes that are UTF-8 are read as what they encode, to the last one; what can be
/// made of others is read from those bytes and no others.
pub proof fn law_files_are_read_to_the_end(bytes: Seq<u8>)
    ensures
        valid_utf8(bytes) ==> encode_utf8(content_of(bytes)) == bytes,
        !valid_utf8(bytes) ==> content_of(bytes) == lossy_text(bytes),
{
    if valid_utf8(bytes) {
        vstd::utf8::decode_utf8_encode_utf8(bytes);
    }
}

/// Behind every file the next one is the one that follows it, and no file changes
/// its place. A file that failed counts as an error, one that did not does not. The
/// work goes on unless it is the error that makes more than ten.
pub proof fn law_conversion_goes_file_by_file(state: ConversionView, error: ErrorView)
    ensures
        state.after(None) == Ok::<ConversionView, ErrorView>(
            (ConversionView { files: state.files, next: state.next + 1, errors: state.errors }),
        ),
        state.errors < 10 ==> state.after(Some(error)) == Ok::<ConversionView, ErrorView>(
            (ConversionView { files: state.files, next: state.next + 1, errors: state.errors + 1 }),
        ),
        state.errors >= 10 ==> state.after(Some(error)) == Err::<ConversionView, ErrorView>(error),
        state.counted(None) == (ConversionView {
            files: state.files,
            next: state.next + 1,
            errors: state.errors,
        }),
        state.counted(Some(error)) == (ConversionView {
            files: state.files,
            next: state.next + 1,
            errors: state.errors + 1,
        }),
{
}

/// Of a file is told which one of how many it is and its name. The files share
/// thirty percent of the work, from sixty percent on.
pub proof fn law_file_is_told_by_number_and_name(state: ConversionView, file_name: Seq<char>)
    requires
        state.next < state.files.len() <= usize::MAX,
    ensures
        ({
            let update = state.converting(file_name);
            &&& update.message == "Converting... "@ + decimal(state.next + 1) + " / "@ + decimal(
                state.files.len(),
            ) + " files"@
            &&& update.current_file == Some(file_name)
            &&& update.total_files matches Some(n) && n == state.files.len()
            &&& update.processed_files matches Some(n) && n == state.next + 1
            &&& update.progress.base_tenths == 600 && update.progress.span_tenths == 300
            &&& update.progress.done == state.next && update.progress.total == state.files.len()
        }),
{
}

/// Before the first file and behind the last one is told how many files there are.
pub proof fn law_conversion_tells_how_many_files(files: usize)
    ensures
        conversion_begins(files as nat) == (UpdateView {
            progress: Progress::at(600),
            message: "Starting file conversion..."@,
            current_file: None,
            total_files: Some(files),
            processed_files: Some(0usize),
        }),
        conversion_done(files as nat) == (UpdateView {
            progress: Progress::at(900),
            message: "File conversion complete!"@,
            current_file: None,
            total_files: Some(files),
            processed_files: Some(files),
        }),
{
}

} // verus!
