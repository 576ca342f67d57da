//! What is told while the work goes on.
use vstd::prelude::*;

use crate::text::opt_text;

verus! {

/// How far the work is, in percent: `base` and, of `span`, the part that
/// `done` is of `total`. `base` and `span` are in tenths of a percent.
#[derive(Debug, Clone, Copy, PartialEq, Eq, Structural)]
pub struct Progress {
    pub base_tenths: u32,
    pub span_tenths: u32,
    pub done: u64,
    pub total: u64,
}

impl Progress {
    /// There is something that `done` is a part of.
    pub open spec fn wf(self) -> bool {
        self.total > 0
    }

    /// The tenths of a percent, times `total`.
    pub open spec fn scaled(self) -> int {
        self.base_tenths * self.total + self.span_tenths * self.done
    }

    /// The work is at so many tenths of a percent, or further.
    pub open spec fn has_reached(self, tenths: int) -> bool {
        self.scaled() >= tenths * self.total
    }

    /// The work is no further than so many tenths of a percent.
    pub open spec fn within(self, tenths: int) -> bool {
        self.scaled() <= tenths * self.total
    }

    /// The work is no further than it is by `other`.
    pub open spec fn not_over(self, other: Progress) -> bool {
        self.scaled() * other.total <= other.scaled() * self.total
    }

    /// The progress, or a hundred percent where it is further than that.
    pub open spec fn clamped(self) -> Progress {
        if self.within(1000) {
            self
        } else {
            Progress::at(1000)
        }
    }

    /// The tenths of a percent, times `total`.
    fn scale(&self) -> (r: u128)
        ensures
            r == self.scaled(),
            r <= 2 * 0xffff_ffff * 0xffff_ffff_ffff_ffff,
    {
        assert(self.base_tenths * self.total <= 0xffff_ffff * 0xffff_ffff_ffff_ffff)
            by (nonlinear_arith)
            requires
                self.base_tenths <= 0xffff_ffff,
                self.total <= 0xffff_ffff_ffff_ffff,
        ;
        assert(self.span_tenths * self.done <= 0xffff_ffff * 0xffff_ffff_ffff_ffff)
            by (nonlinear_arith)
            requires
                self.span_tenths <= 0xffff_ffff,
                self.done <= 0xffff_ffff_ffff_ffff,
        ;
        self.base_tenths as u128 * self.total as u128 + self.span_tenths as u128 * self.done as u128
    }

    /// Whether the work is at so many tenths of a percent, or further.
    pub fn reaches(&self, tenths: u32) -> (r: bool)
        ensures
            r == self.has_reached(tenths as int),
    {
        assert(tenths * self.total <= 0xffff_ffff * 0xffff_ffff_ffff_ffff) by (nonlinear_arith)
            requires
                tenths <= 0xffff_ffff,
                self.total <= 0xffff_ffff_ffff_ffff,
        ;
        self.scale() >= tenths as u128 * self.total as u128
    }

    /// The progress, or a hundred percent where it is further than that.
    pub fn clamp(&self) -> (r: Progress)
        ensures
            r == self.clamped(),
            r.within(1000),
            self.wf() ==> r.wf(),
    {
        if self.scale() <= 1000 * self.total as u128 {
            *self
        } else {
            fixed(1000)
        }
    }

    /// A fixed number of tenths of a percent.
    pub open spec fn at(tenths: u32) -> Progress {
        Progress { base_tenths: tenths, span_tenths: 0, done: 0, total: 1 }
    }
}

/// As long as no more is done than there is, the progress stays between that
/// at the beginning and that at the end.
pub proof fn law_progress_stays_in_its_share(progress: Progress)
    requires
        progress.done <= progress.total,
    ensures
        progress.has_reached(progress.base_tenths as int),
        progress.within(progress.base_tenths + progress.span_tenths),
{
    let (b, s, d, t) = (
        progress.base_tenths as int,
        progress.span_tenths as int,
        progress.done as int,
        progress.total as int,
    );
    assert(0 <= s * d <= s * t && (b + s) * t == b * t + s * t) by (nonlinear_arith)
        requires
            s >= 0,
            0 <= d <= t,
    ;
}

/// The more is done, the further the progress.
pub proof fn law_progress_grows(progress: Progress, more: u64)
    requires
        progress.done <= more,
    ensures
        progress.not_over(Progress { done: more, ..progress }),
{
    let (b, s, d, t) = (
        progress.base_tenths as int,
        progress.span_tenths as int,
        progress.done as int,
        progress.total as int,
    );
    let m = more as int;
    assert((b * t + s * d) * t <= (b * t + s * m) * t) by (nonlinear_arith)
        requires
            s >= 0,
            d <= m,
            t >= 0,
    ;
}

/// What a progress has reached, one that is no less far has reached too.
pub proof fn lemma_reached_stays(before: Progress, after: Progress, tenths: int)
    requires
        before.wf(),
        before.not_over(after),
        before.has_reached(tenths),
    ensures
        after.has_reached(tenths),
{
    let (p, q) = (before.scaled(), after.scaled());
    let (t, u) = (before.total as int, after.total as int);
    assert(q >= tenths * u) by (nonlinear_arith)
        requires
            t > 0,
            u >= 0,
            p * u <= q * t,
            p >= tenths * t,
    {
        assert(p * u >= (tenths * t) * u);
        assert((tenths * t) * u == (tenths * u) * t);
    }
}

/// A progress that is no further than some point is not over one that has
/// reached that point.
pub proof fn lemma_not_over_by_point(before: Progress, after: Progress, tenths: int)
    requires
        before.within(tenths),
        after.has_reached(tenths),
    ensures
        before.not_over(after),
{
    let (p, q) = (before.scaled(), after.scaled());
    let (t, u) = (before.total as int, after.total as int);
    assert(p * u <= q * t) by (nonlinear_arith)
        requires
            t >= 0,
            u >= 0,
            p <= tenths * t,
            q >= tenths * u,
    {
        assert(p * u <= (tenths * t) * u);
        assert((tenths * t) * u == (tenths * u) * t);
    }
}

/// A fixed number of tenths of a percent.
pub fn fixed(tenths: u32) -> (r: Progress)
    ensures
        r == Progress::at(tenths),
{
    Progress { base_tenths: tenths, span_tenths: 0, done: 0, total: 1 }
}

/// One message about the work.
#[derive(Debug)]
pub struct ProgressUpdate {
    pub progress: Progress,
    pub message: String,
    pub current_file: Option<String>,
    pub total_files: Option<usize>,
    pub processed_files: Option<usize>,
}

/// A [`ProgressUpdate`] by its characters.
#[verifier::ext_equal]
pub struct UpdateView {
    pub progress: Progress,
    pub message: Seq<char>,
    pub current_file: Option<Seq<char>>,
    pub total_files: Option<usize>,
    pub processed_files: Option<usize>,
}

impl View for ProgressUpdate {
    type V = UpdateView;

    open spec fn view(&self) -> UpdateView {
        UpdateView {
            progress: self.progress,
            message: self.message@,
            current_file: opt_text(self.current_file),
            total_files: self.total_files,
            processed_files: self.processed_files,
        }
    }
}

impl UpdateView {
    /// A message that is about no file.
    pub open spec fn note(progress: Progress, message: Seq<char>) -> UpdateView {
        UpdateView {
            progress,
            message,
            current_file: None,
            total_files: None,
            processed_files: None,
        }
    }
}

/// A message that is about no file, at a fixed number of tenths of a percent.
pub fn note(tenths: u32, message: &str) -> (r: ProgressUpdate)
    ensures
        r@ == UpdateView::note(Progress::at(tenths), message@),
{
    ProgressUpdate {
        progress: fixed(tenths),
        message: message.to_string(),
        current_file: None,
        total_files: None,
        processed_files: None,
    }
}

/// Progress is `base` and, of `span`, the part that `done` is of `total`; a fixed
/// one is at just its number of tenths.
pub proof fn law_progress_is_measured_in_tenths(progress: Progress, tenths: int, point: u32)
    ensures
        progress.has_reached(tenths) <==> progress.base_tenths * progress.total
            + progress.span_tenths * progress.done >= tenths * progress.total,
        progress.within(tenths) <==> progress.base_tenths * progress.total + progress.span_tenths
            * progress.done <= tenths * progress.total,
        Progress::at(point).has_reached(tenths) <==> point >= tenths,
        Progress::at(point).within(tenths) <==> point <= tenths,
        Progress::at(point).wf(),
{
    assert(point * 1 == point && 0 * 0 == 0 && tenths * 1 == tenths) by (nonlinear_arith);
}

/// One progress is not over another just if the tenths that the other has not
/// got past, it has not got past either.
pub proof fn law_progress_is_ordered(before: Progress, after: Progress)
    ensures
        before.not_over(after) <==> (before.base_tenths * before.total + before.span_tenths
            * before.done) * after.total <= (after.base_tenths * after.total + after.span_tenths
            * after.done) * before.total,
{
}

/// Progress is shown as it is up to a hundred percent, and as a hundred percent
/// beyond.
pub proof fn law_progress_is_shown_up_to_the_whole(progress: Progress)
    ensures
        progress.base_tenths * progress.total + progress.span_tenths * progress.done <= 1000
            * progress.total ==> progress.clamped() == progress,
        progress.base_tenths * progress.total + progress.span_tenths * progress.done > 1000
            * progress.total ==> progress.clamped() == (Progress {
            base_tenths: 1000,
            span_tenths: 0,
            done: 0,
            total: 1,
        }),
{
}

/// A message about no file holds its progress and its text, and no more.
pub proof fn law_note_holds_its_message(progress: Progress, message: Seq<char>)
    ensures
        UpdateView::note(progress, message).progress == progress,
        UpdateView::note(progress, message).message == message,
        UpdateView::note(progress, message).current_file is None,
        UpdateView::note(progress, message).total_files is None,
        UpdateView::note(progress, message).processed_files is None,
{
}

/// What is said of a message's characters is said of all of it.
pub proof fn law_update_is_seen_whole(update: ProgressUpdate)
    ensures
        update@.progress == update.progress,
        update@.message == update.message@,
        update@.current_file == opt_text(update.current_file),
        update@.total_files == update.total_files,
        update@.processed_files == update.processed_files,
{
}

} // verus!
