//! Progress accounting: four counters per series, a file series and a byte
//! series, and the phase that the run is in.

use vstd::prelude::*;
use vstd::wrapping::u64_specs::{wrapping_add, wrapping_sub};
use crate::text::{decimal, decimal_text};

verus! {

/// Milliseconds between two looks at the counters while waiting.
pub const POLL_INTERVAL_MS: u64 = 100;

/// Number of phases that a fresh tracker announces.
pub const DEFAULT_TOTAL_STEPS: u8 = 4;

/// The four counters of one series.
pub struct Counters {
    pub total: u64,
    pub success: u64,
    pub skipped: u64,
    pub failed: u64,
}

impl Counters {
    /// All four counters at zero.
    pub open spec fn zero() -> Counters {
        Counters { total: 0, success: 0, skipped: 0, failed: 0 }
    }

    /// Units that are done, whichever way they ended.
    pub open spec fn done(self) -> int {
        self.success + self.skipped + self.failed
    }

    /// No more units are done than were announced.
    pub open spec fn consistent(self) -> bool {
        self.done() <= self.total
    }

    /// Units announced and not done yet; computed in 64 bits, wrapping.
    pub open spec fn remaining(self) -> u64 {
        wrapping_sub(wrapping_sub(wrapping_sub(self.total, self.success), self.skipped), self.failed)
    }
}

/// Counters of one series of work: announced, succeeded, skipped, failed.
/// There is one set of counters for a series: whoever counts shares it.
#[derive(Debug)]
pub struct ProgressPart {
    total: u64,
    success: u64,
    skipped: u64,
    failed: u64,
}

impl View for ProgressPart {
    type V = Counters;

    closed spec fn view(&self) -> Counters {
        Counters {
            total: self.total,
            success: self.success,
            skipped: self.skipped,
            failed: self.failed,
        }
    }
}

/// While the counters are consistent, what remains is the announced total
/// less what is done, and so never more than the total.
pub proof fn lemma_remaining_of_consistent(c: Counters)
    requires
        c.consistent(),
    ensures
        c.remaining() == c.total - c.done(),
        c.remaining() <= c.total,
{
}

/// Counters whose completed units wrapped past the announced total show
/// more remaining than total; consistent counters never do.
pub proof fn lemma_remaining_exceeds_total(c: Counters)
    requires
        !c.consistent(),
        c.done() <= u64::MAX,
    ensures
        c.remaining() > c.total,
{
}

impl Default for ProgressPart {
    fn default() -> (r: Self)
        ensures
            r@ == Counters::zero(),
    {
        ProgressPart::new()
    }
}

impl ProgressPart {
    /// Counters at zero.
    pub fn new() -> (r: Self)
        ensures
            r@ == Counters::zero(),
            r@.consistent(),
    {
        ProgressPart { total: 0, success: 0, skipped: 0, failed: 0 }
    }

    /// Announces `count` more units. Sums wrap at 64 bits; short of that,
    /// consistent counters stay consistent.
    pub fn inc_total(&mut self, count: u64)
        ensures
            final(self)@ == (Counters { total: wrapping_add(old(self)@.total, count), ..old(self)@ }),
            old(self)@.consistent() && old(self)@.total + count <= u64::MAX ==> final(self)@.consistent(),
    {
        self.total = self.total.wrapping_add(count);
    }

    /// Counts `count` units as succeeded. Consistent counters stay
    /// consistent when no more than the remaining units are counted.
    pub fn inc_success(&mut self, count: u64)
        ensures
            final(self)@ == (Counters {
                success: wrapping_add(old(self)@.success, count),
                ..old(self)@
            }),
            old(self)@.consistent() && count <= old(self)@.remaining() ==> final(self)@.consistent()
                && final(self)@.remaining() == old(self)@.remaining() - count,
    {
        self.success = self.success.wrapping_add(count);
    }

    /// Counts `count` units as skipped. Consistent counters stay consistent
    /// when no more than the remaining units are counted.
    pub fn inc_skipped(&mut self, count: u64)
        ensures
            final(self)@ == (Counters {
                skipped: wrapping_add(old(self)@.skipped, count),
                ..old(self)@
            }),
            old(self)@.consistent() && count <= old(self)@.remaining() ==> final(self)@.consistent()
                && final(self)@.remaining() == old(self)@.remaining() - count,
    {
        self.skipped = self.skipped.wrapping_add(count);
    }

    /// Units announced.
    pub fn total(&self) -> (r: u64)
        ensures
            r == self@.total,
    {
        self.total
    }

    /// Units that succeeded.
    pub fn success(&self) -> (r: u64)
        ensures
            r == self@.success,
    {
        self.success
    }

    /// Units that were skipped.
    pub fn skipped(&self) -> (r: u64)
        ensures
            r == self@.skipped,
    {
        self.skipped
    }

    /// Units that failed.
    pub fn failed(&self) -> (r: u64)
        ensures
            r == self@.failed,
    {
        self.failed
    }

    /// Units announced and not done yet.
    pub fn remaining(&self) -> (r: u64)
        ensures
            r == self@.remaining(),
            self@.consistent() ==> r == self@.total - self@.done(),
    {
        self.total.wrapping_sub(self.success).wrapping_sub(self.skipped).wrapping_sub(self.failed)
    }

    /// Sets all four counters to zero.
    pub fn reset(&mut self)
        ensures
            final(self)@ == Counters::zero(),
            final(self)@.consistent(),
    {
        self.total = 0;
        self.success = 0;
        self.skipped = 0;
        self.failed = 0;
    }

    /// The counts of finished units in words.
    pub fn summary(&self) -> (r: String)
        ensures
            r@ == summary_text(self@),
    {
        let mut r = decimal_text(self.success);
        r.append(" succeeded, ");
        let skipped = decimal_text(self.skipped);
        r.append(skipped.as_str());
        r.append(" skipped, ");
        let failed = decimal_text(self.failed);
        r.append(failed.as_str());
        r.append(" failed");
        r
    }
}

/// `"{success} succeeded, {skipped} skipped, {failed} failed"`.
pub open spec fn summary_text(c: Counters) -> Seq<char> {
    decimal(c.success as nat) + " succeeded, "@ + decimal(c.skipped as nat) + " skipped, "@
        + decimal(c.failed as nat) + " failed"@
}

/// One change of a series of counters.
pub enum CounterEvent {
    /// Units were announced.
    Announced(u64),
    /// Units ended in success.
    Succeeded(u64),
    /// Units were skipped.
    Skipped(u64),
}

/// The counters after one event.
pub open spec fn after_event(c: Counters, e: CounterEvent) -> Counters {
    match e {
        CounterEvent::Announced(n) => Counters { total: wrapping_add(c.total, n), ..c },
        CounterEvent::Succeeded(n) => Counters { success: wrapping_add(c.success, n), ..c },
        CounterEvent::Skipped(n) => Counters { skipped: wrapping_add(c.skipped, n), ..c },
    }
}

/// The counters after a run of events.
pub open spec fn after_events(c: Counters, events: Seq<CounterEvent>) -> Counters
    decreases events.len(),
{
    if events.len() == 0 {
        c
    } else {
        after_event(after_events(c, events.drop_last()), events.last())
    }
}

/// An event that keeps the accounting in order: an announcement that does
/// not carry the total past 64 bits, or a completion of no more units
/// than remain.
pub open spec fn in_order(c: Counters, e: CounterEvent) -> bool {
    match e {
        CounterEvent::Announced(n) => c.total + n <= u64::MAX,
        CounterEvent::Succeeded(n) => n <= c.remaining(),
        CounterEvent::Skipped(n) => n <= c.remaining(),
    }
}

/// Every event of the run is in order at the point where it happens.
pub open spec fn orderly(c: Counters, events: Seq<CounterEvent>) -> bool {
    forall|k: int|
        0 <= k < events.len() ==> in_order(after_events(c, events.take(k)), #[trigger] events[k])
}

/// The counters are consistent at every point of an orderly run that starts
/// from consistent counters: done units never exceed the announced total.
pub proof fn lemma_consistent_throughout(c: Counters, events: Seq<CounterEvent>, k: int)
    requires
        c.consistent(),
        orderly(c, events),
        0 <= k <= events.len(),
    ensures
        after_events(c, events.take(k)).consistent(),
    decreases k,
{
    if k > 0 {
        lemma_consistent_throughout(c, events, k - 1);
        assert(events.take(k).drop_last() =~= events.take(k - 1));
        assert(events.take(k).last() == events[k - 1]);
        assert(in_order(after_events(c, events.take(k - 1)), events[k - 1]));
    } else {
        assert(events.take(0).len() == 0);
    }
}

/// What a progress display shows for the file series.
#[derive(Debug, Clone, Copy, PartialEq, Eq, Structural)]
pub struct BarUpdate {
    /// Length of the bar: files announced.
    pub length: u64,
    /// Position of the bar: files done. `None` leaves the position as it is.
    pub position: Option<u64>,
    /// Bytes received so far, for the message.
    pub bytes_done: u64,
}

/// What a progress display is made with.
#[derive(Debug, Clone, PartialEq, Eq)]
pub struct BarSetup {
    /// Initial length of the bar.
    pub length: u64,
    /// Layout of the line.
    pub template: String,
    /// Text before the bar.
    pub prefix: String,
}

/// One look at the counters while waiting for the files of a phase.
#[derive(Debug, Clone, Copy, PartialEq, Eq, Structural)]
pub enum WaitStep {
    /// Files remain: show the update, pause, and look again.
    Pending(BarUpdate),
    /// No file remains: show the update and end the display.
    Finished(BarUpdate),
}

/// Layout of the display of a phase whose size is unknown.
pub const NO_SIZE_TEMPLATE: &'static str = "{prefix} [{elapsed_precise}] [{msg}]";

/// Layout of the display of a phase that counts files.
pub const FILES_TEMPLATE: &'static str =
    "{prefix} [{wide_bar:.cyan/dim}] {pos}/{len} [{elapsed_precise}] [{msg}]";

/// Progress of a run: the phase it is in, the files and bytes of that
/// phase, and the bytes of the phases before. There is one progress for a
/// run: whoever counts shares it.
#[derive(Debug)]
pub struct Progress {
    /// Number of the phase, counted from one.
    pub step: u8,
    /// Name of the phase.
    pub step_name: String,
    /// Files of the phase.
    pub files: ProgressPart,
    /// Bytes of the phase.
    pub bytes: ProgressPart,
    /// Bytes received in the phases that are over.
    pub total_bytes: u64,
    /// Number of phases that the display announces.
    pub total_steps: u8,
}

/// Mathematical content of a [`Progress`].
pub struct ProgressView {
    pub step: u8,
    pub step_name: Seq<char>,
    pub files: Counters,
    pub bytes: Counters,
    pub total_bytes: u64,
    pub total_steps: u8,
}

impl View for Progress {
    type V = ProgressView;

    open spec fn view(&self) -> ProgressView {
        ProgressView {
            step: self.step,
            step_name: self.step_name@,
            files: self.files@,
            bytes: self.bytes@,
            total_bytes: self.total_bytes,
            total_steps: self.total_steps,
        }
    }
}

impl Progress {
    /// Progress before the first phase: everything at zero, no phase name.
    pub open spec fn new_view() -> ProgressView {
        ProgressView {
            step: 0,
            step_name: Seq::empty(),
            files: Counters::zero(),
            bytes: Counters::zero(),
            total_bytes: 0,
            total_steps: DEFAULT_TOTAL_STEPS,
        }
    }
}

impl ProgressView {
    /// `"[{step}/{total_steps}] {step_name}"`.
    pub open spec fn prefix(self) -> Seq<char> {
        "["@ + decimal(self.step as nat) + "/"@ + decimal(self.total_steps as nat) + "] "@
            + self.step_name
    }

    /// What the display shows: the announced files as length, the done
    /// files as position unless the counters show more remaining than
    /// announced, and the bytes received.
    pub open spec fn bar_update(self) -> BarUpdate {
        BarUpdate {
            length: self.files.total,
            position: if self.files.total >= self.files.remaining() {
                Some((self.files.total - self.files.remaining()) as u64)
            } else {
                None
            },
            bytes_done: self.bytes.success,
        }
    }

    /// The progress at the start of the next phase.
    pub open spec fn next_step(self, name: Seq<char>) -> ProgressView {
        ProgressView {
            step: vstd::wrapping::u8_specs::wrapping_add(self.step, 1),
            step_name: name,
            files: Counters::zero(),
            bytes: Counters::zero(),
            ..self
        }
    }
}

/// With consistent file counters the display's position is the number of
/// files done.
pub proof fn lemma_position_is_done(p: ProgressView)
    requires
        p.files.consistent(),
    ensures
        p.bar_update().position == Some(p.files.done() as u64),
{
}

impl Default for Progress {
    fn default() -> (r: Self)
        ensures
            r@ == (ProgressView {
                step: 0,
                step_name: Seq::empty(),
                files: Counters::zero(),
                bytes: Counters::zero(),
                total_bytes: 0,
                total_steps: 0,
            }),
    {
        Progress {
            step: 0,
            step_name: String::new(),
            files: ProgressPart::new(),
            bytes: ProgressPart::new(),
            total_bytes: 0,
            total_steps: 0,
        }
    }
}

impl Progress {
    /// Progress before the first phase: everything at zero, no phase name.
    pub fn new() -> (r: Self)
        ensures
            r@ == Progress::new_view(),
    {
        Progress {
            step: 0,
            step_name: String::new(),
            files: ProgressPart::new(),
            bytes: ProgressPart::new(),
            total_bytes: 0,
            total_steps: DEFAULT_TOTAL_STEPS,
        }
    }

    /// The text that stands before the display of the current phase.
    pub fn create_prefix(&self) -> (r: String)
        ensures
            r@ == self@.prefix(),
    {
        let mut r = String::from_str("[");
        let step = decimal_text(self.step as u64);
        r.append(step.as_str());
        r.append("/");
        let total = decimal_text(self.total_steps as u64);
        r.append(total.as_str());
        r.append("] ");
        r.append(self.step_name.as_str());
        r
    }

    /// The display of a phase whose size is unknown: as long as the bytes
    /// announced.
    pub fn create_download_no_size_progress_bar(&self) -> (r: BarSetup)
        ensures
            r.length == self@.bytes.total,
            r.template@ == NO_SIZE_TEMPLATE@,
            r.prefix@ == self@.prefix(),
    {
        BarSetup {
            length: self.bytes.total(),
            template: String::from_str(NO_SIZE_TEMPLATE),
            prefix: self.create_prefix(),
        }
    }

    /// The display of a phase that counts files: as long as the files
    /// announced.
    pub fn create_download_progress_bar(&self) -> (r: BarSetup)
        ensures
            r.length == self@.files.total,
            r.template@ == FILES_TEMPLATE@,
            r.prefix@ == self@.prefix(),
    {
        BarSetup {
            length: self.files.total(),
            template: String::from_str(FILES_TEMPLATE),
            prefix: self.create_prefix(),
        }
    }

    /// What the display shows now.
    pub fn update_for_files(&self) -> (r: BarUpdate)
        ensures
            r == self@.bar_update(),
    {
        let files_total = self.files.total();
        let files_remaining = self.files.remaining();
        let position = if files_total >= files_remaining {
            Some(files_total - files_remaining)
        } else {
            None
        };
        BarUpdate { length: files_total, position, bytes_done: self.bytes.success() }
    }

    /// Sets the number of phases that the display announces.
    pub fn set_total_steps(&mut self, num_steps: u8)
        ensures
            final(self)@ == (ProgressView { total_steps: num_steps, ..old(self)@ }),
    {
        self.total_steps = num_steps;
    }

    /// Starts the next phase: both series return to zero, the phase number
    /// goes up by one (wrapping at 8 bits) and the phase takes its name.
    pub fn next_step(&mut self, step_name: &str)
        ensures
            final(self)@ == old(self)@.next_step(step_name@),
    {
        self.step_name = String::from_str(step_name);
        self.bytes.reset();
        self.files.reset();
        self.step = self.step.wrapping_add(1);
    }

    /// One look at the counters while waiting for the files of the phase.
    /// While files remain nothing changes. Once none remains, the bytes
    /// received in the phase are added to the bytes of the run (wrapping
    /// at 64 bits).
    pub fn wait_for_completion(&mut self) -> (r: WaitStep)
        ensures
            old(self)@.files.remaining() > 0 ==> r == WaitStep::Pending(old(self)@.bar_update())
                && final(self)@ == old(self)@,
            old(self)@.files.remaining() == 0 ==> r == WaitStep::Finished(old(self)@.bar_update())
                && final(self)@ == (ProgressView {
                total_bytes: wrapping_add(old(self)@.total_bytes, old(self)@.bytes.success),
                ..old(self)@
            }),
    {
        if self.files.remaining() > 0 {
            WaitStep::Pending(self.update_for_files())
        } else {
            self.total_bytes = self.total_bytes.wrapping_add(self.bytes.success());
            WaitStep::Finished(self.update_for_files())
        }
    }
}

} // verus!
