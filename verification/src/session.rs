//! The consumer of a recording session: what the interface keeps of the
//! samples, the heatmaps and the final word that the worker sends, polled
//! once per tick without ever waiting.

use vstd::prelude::*;
use crate::bounded::{push_bounded, Bounded};
use crate::decimal::{render_nat, write_u64};
use crate::heatmap::{rows_of, Heatmap};
use crate::saved_data::{csv_path, log_path, rrd_path, table_path};

verus! {

/// How many samples the live series keeps.
pub const SERIES_CAPACITY: usize = 2000;

/// After how many seconds of recording the interface turns to the live plot
/// alone.
pub const AUTO_SWITCH_SECS: u64 = 10;

/// What a poll of a channel found.
#[derive(Debug)]
pub enum Polled<T> {
    /// A message.
    Item(T),
    /// Nothing yet; the sender is still there.
    Empty,
    /// Nothing, and the sender is gone.
    Disconnected,
}

/// Which step of input or recording the interface is in.
#[derive(Debug, Clone, Copy, PartialEq, Eq, Structural)]
pub enum Step {
    EnterFilename,
    ChooseAction,
    EnterDuration,
    Recording,
    Finished,
}

/// How a session ended.
pub enum OutcomeView {
    Succeeded,
    Failed(Seq<char>),
    WorkerVanished,
}

/// How a session ended.
#[derive(Debug)]
pub enum Outcome {
    /// The worker reported success.
    Succeeded,
    /// The worker reported a failure, in these words.
    Failed(String),
    /// The worker ended without a word.
    WorkerVanished,
}

impl View for Outcome {
    type V = OutcomeView;

    open spec fn view(&self) -> OutcomeView {
        match self {
            Outcome::Succeeded => OutcomeView::Succeeded,
            Outcome::Failed(text) => OutcomeView::Failed(text@),
            Outcome::WorkerVanished => OutcomeView::WorkerVanished,
        }
    }
}

/// What the status line says of an outcome.
pub open spec fn status_text(outcome: OutcomeView) -> Seq<char> {
    match outcome {
        OutcomeView::Succeeded => "Recording finished successfully."@,
        OutcomeView::Failed(text) => "Recording failed: "@ + text,
        OutcomeView::WorkerVanished => "Worker thread disconnected unexpectedly."@,
    }
}

impl Outcome {
    /// What the status line says of this outcome.
    pub fn status(&self) -> (out: String)
        ensures
            out@ == status_text(self@),
    {
        let mut out = String::new();
        match self {
            Outcome::Succeeded => {
                out.append("Recording finished successfully.");
            },
            Outcome::Failed(text) => {
                out.append("Recording failed: ");
                out.append(text.as_str());
            },
            Outcome::WorkerVanished => {
                out.append("Worker thread disconnected unexpectedly.");
            },
        }
        out
    }
}

/// What the consumer keeps of a session.
pub struct SessionState<T> {
    pub step: Step,
    /// The live series, oldest first.
    pub series: Seq<T>,
    /// The heatmap that is shown.
    pub heatmap: Seq<Seq<u8>>,
    /// Whether the channel of samples is still polled.
    pub samples_open: bool,
    /// Whether the channel of heatmaps is still polled.
    pub heatmaps_open: bool,
    /// Whether the channel of the final word is still polled.
    pub worker_open: bool,
    /// How the session ended, once it has.
    pub outcome: Option<OutcomeView>,
    /// Whether the time at which the recording began is still kept.
    pub timing: bool,
    /// Whether the interface has turned to the live plot by itself.
    pub auto_switched: bool,
    /// Whether the live plot fills the screen.
    pub full_screen_plot: bool,
}

/// The state before any session.
pub open spec fn initial<T>() -> SessionState<T> {
    SessionState {
        step: Step::EnterFilename,
        series: Seq::empty(),
        heatmap: Seq::empty(),
        samples_open: false,
        heatmaps_open: false,
        worker_open: false,
        outcome: None,
        timing: false,
        auto_switched: false,
        full_screen_plot: false,
    }
}

/// The state when a recording starts: what was shown is cleared, the three
/// channels are new, and nothing is known of an outcome.
pub open spec fn started<T>(st: SessionState<T>) -> SessionState<T> {
    SessionState {
        step: Step::Recording,
        series: Seq::empty(),
        heatmap: Seq::empty(),
        samples_open: true,
        heatmaps_open: true,
        worker_open: true,
        outcome: None,
        timing: true,
        auto_switched: false,
        full_screen_plot: false,
    }
}

/// The state after the final word of the worker, a success or a failure.
pub open spec fn ended<T>(st: SessionState<T>, outcome: OutcomeView) -> SessionState<T> {
    SessionState {
        step: Step::Finished,
        worker_open: false,
        outcome: Some(outcome),
        timing: false,
        auto_switched: false,
        full_screen_plot: false,
        ..st
    }
}

/// The state after the worker was found gone without a final word.
pub open spec fn vanished<T>(st: SessionState<T>) -> SessionState<T> {
    SessionState {
        step: Step::Finished,
        worker_open: false,
        outcome: Some(OutcomeView::WorkerVanished),
        ..st
    }
}

/// The state after `elapsed_secs` seconds were found to have passed since
/// the recording began.
pub open spec fn auto_switched<T>(st: SessionState<T>, elapsed_secs: u64) -> SessionState<T> {
    if st.step == Step::Recording && !st.auto_switched && st.timing && elapsed_secs
        >= AUTO_SWITCH_SECS {
        SessionState { auto_switched: true, full_screen_plot: true, ..st }
    } else {
        st
    }
}

/// What a recording that starts is to write, and what the status line says
/// of it.
pub struct RecordingPlanView {
    pub csv_filename: Seq<char>,
    pub rrd_filename: Seq<char>,
    pub status: Seq<char>,
}

/// What a recording that starts is to write, and what the status line says
/// of it.
#[derive(Debug)]
pub struct RecordingPlan {
    /// The path of the table.
    pub csv_filename: String,
    /// The path of the log.
    pub rrd_filename: String,
    /// What the status line says while the recording runs.
    pub status: String,
}

impl View for RecordingPlan {
    type V = RecordingPlanView;

    open spec fn view(&self) -> RecordingPlanView {
        RecordingPlanView {
            csv_filename: self.csv_filename@,
            rrd_filename: self.rrd_filename@,
            status: self.status@,
        }
    }
}

/// What the status line says where a recording cannot start for want of a
/// device.
pub open spec fn no_port_status() -> Seq<char> {
    "No serial port detected; cannot start recording."@
}

/// What the recording named `base` is to write in `secs` seconds from the
/// device `port`.
pub open spec fn recording_plan(base: Seq<char>, secs: u64, port: Seq<char>) -> RecordingPlanView {
    RecordingPlanView {
        csv_filename: table_path(base),
        rrd_filename: log_path(base),
        status: "Recording to "@ + table_path(base) + " and "@ + log_path(base) + " for "@
            + render_nat(secs as nat) + "s on port "@ + port + "..."@,
    }
}

/// A worker that is gone without a final word ends the session, and with
/// an outcome of its own; a worker that has nothing to say yet leaves the
/// session as it is. The two are never taken for one another.
pub proof fn lemma_vanished_is_not_running<T>(st: SessionState<T>)
    requires
        st.worker_open,
    ensures
        vanished(st).outcome == Some(OutcomeView::WorkerVanished),
        vanished(st).step == Step::Finished,
        !vanished(st).worker_open,
        vanished(st) != st,
{
}

/// The consumer of recording sessions, one at a time.
#[derive(Debug)]
pub struct Session<T> {
    step: Step,
    series: Bounded<T>,
    heatmap: Heatmap,
    samples_open: bool,
    heatmaps_open: bool,
    worker_open: bool,
    outcome: Option<Outcome>,
    timing: bool,
    auto_switched: bool,
    full_screen_plot: bool,
}

impl<T> View for Session<T> {
    type V = SessionState<T>;

    closed spec fn view(&self) -> SessionState<T> {
        SessionState {
            step: self.step,
            series: self.series@,
            heatmap: rows_of(self.heatmap.values@),
            samples_open: self.samples_open,
            heatmaps_open: self.heatmaps_open,
            worker_open: self.worker_open,
            outcome: match self.outcome {
                Some(outcome) => Some(outcome@),
                None => None,
            },
            timing: self.timing,
            auto_switched: self.auto_switched,
            full_screen_plot: self.full_screen_plot,
        }
    }
}

impl<T> Session<T> {
    /// A consumer is well formed when its series has room for
    /// `SERIES_CAPACITY` samples and holds no more.
    pub closed spec fn wf(&self) -> bool {
        self.series.wf() && self.series.cap() == SERIES_CAPACITY
    }

    /// A well-formed consumer never holds more than `SERIES_CAPACITY`
    /// samples.
    pub proof fn lemma_series_bounded(&self)
        requires
            self.wf(),
        ensures
            self@.series.len() <= SERIES_CAPACITY,
    {
        self.series.lemma_wf();
    }

    /// The consumer before any session.
    pub fn new() -> (out: Self)
        ensures
            out.wf(),
            out@ == initial::<T>(),
    {
        let out = Session {
            step: Step::EnterFilename,
            series: Bounded::new(SERIES_CAPACITY),
            heatmap: Heatmap { values: Vec::new() },
            samples_open: false,
            heatmaps_open: false,
            worker_open: false,
            outcome: None,
            timing: false,
            auto_switched: false,
            full_screen_plot: false,
        };
        assert(rows_of(out.heatmap.values@) =~= Seq::<Seq<u8>>::empty());
        out
    }

    /// Which step the interface is in.
    pub fn step(&self) -> (out: Step)
        ensures
            out == self@.step,
    {
        self.step
    }

    /// Moves the interface to `step`.
    pub fn set_step(&mut self, step: Step)
        ensures
            final(self).wf() == old(self).wf(),
            final(self)@ == (SessionState { step: step, ..old(self)@ }),
    {
        self.step = step;
    }

    /// The live series, oldest first.
    pub fn series(&self) -> (out: &[T])
        ensures
            out@ == self@.series,
    {
        self.series.as_slice()
    }

    /// The heatmap that is shown.
    pub fn heatmap(&self) -> (out: &Heatmap)
        ensures
            rows_of(out.values@) == self@.heatmap,
    {
        &self.heatmap
    }

    /// Whether the channel of samples is still to be polled.
    pub fn samples_open(&self) -> (out: bool)
        ensures
            out == self@.samples_open,
    {
        self.samples_open
    }

    /// Whether the channel of heatmaps is still to be polled.
    pub fn heatmaps_open(&self) -> (out: bool)
        ensures
            out == self@.heatmaps_open,
    {
        self.heatmaps_open
    }

    /// Whether the channel of the final word is still to be polled.
    pub fn worker_open(&self) -> (out: bool)
        ensures
            out == self@.worker_open,
    {
        self.worker_open
    }

    /// How the session ended, once it has.
    pub fn outcome(&self) -> (out: &Option<Outcome>)
        ensures
            match out {
                Some(outcome) => self@.outcome == Some(outcome@),
                None => self@.outcome is None,
            },
    {
        &self.outcome
    }

    /// Whether the time at which the recording began is still kept.
    pub fn timing(&self) -> (out: bool)
        ensures
            out == self@.timing,
    {
        self.timing
    }

    /// Whether the live plot fills the screen.
    pub fn full_screen_plot(&self) -> (out: bool)
        ensures
            out == self@.full_screen_plot,
    {
        self.full_screen_plot
    }

    /// Starts a recording: whatever an earlier session left is dropped.
    pub fn start(&mut self)
        requires
            old(self).wf(),
        ensures
            final(self).wf(),
            final(self)@ == started(old(self)@),
    {
        self.step = Step::Recording;
        self.series.clear();
        self.heatmap = Heatmap { values: Vec::new() };
        self.samples_open = true;
        self.heatmaps_open = true;
        self.worker_open = true;
        self.outcome = None;
        self.timing = true;
        self.auto_switched = false;
        self.full_screen_plot = false;
        assert(rows_of(self.heatmap.values@) =~= Seq::<Seq<u8>>::empty());
    }

    /// Starts the recording named `base` for `secs` seconds, where a device
    /// is known: what an earlier session left is dropped, and the plan says
    /// what is to be written. Where no device is known, nothing starts: the
    /// interface is finished, and the words for the status line come back.
    pub fn start_recording(&mut self, port: Option<&str>, base: &str, secs: u64) -> (out: Result<
        RecordingPlan,
        String,
    >)
        requires
            old(self).wf(),
        ensures
            final(self).wf(),
            match port {
                Some(port) => final(self)@ == started(old(self)@) && (out matches Ok(plan)
                    && plan@ == recording_plan(base@, secs, port@)),
                None => final(self)@ == (SessionState { step: Step::Finished, ..old(self)@ })
                    && (out matches Err(status) && status@ == no_port_status()),
            },
    {
        match port {
            None => {
                self.step = Step::Finished;
                let mut status = String::new();
                status.append("No serial port detected; cannot start recording.");
                Err(status)
            },
            Some(port) => {
                self.start();
                let csv_filename = csv_path(base);
                let rrd_filename = rrd_path(base);
                let mut status = String::new();
                status.append("Recording to ");
                status.append(csv_filename.as_str());
                status.append(" and ");
                status.append(rrd_filename.as_str());
                status.append(" for ");
                write_u64(&mut status, secs);
                status.append("s on port ");
                status.append(port);
                status.append("...");
                Ok(RecordingPlan { csv_filename, rrd_filename, status })
            },
        }
    }

    /// Puts a loaded heatmap in the place of the one that is shown.
    pub fn show_heatmap(&mut self, grid: Vec<Vec<u8>>)
        ensures
            final(self).wf() == old(self).wf(),
            final(self)@ == (SessionState { heatmap: rows_of(grid@), ..old(self)@ }),
    {
        self.heatmap = Heatmap { values: grid };
    }

    /// Takes what a poll of the channel of samples found, and says whether
    /// to poll again at once. A sample joins the series, the oldest leaving
    /// where there is no room, and the channel is polled again; an empty
    /// channel is left for the next tick; a channel whose sender is gone is
    /// polled no more. Where the channel is no longer polled, nothing
    /// happens.
    pub fn on_sample_poll(&mut self, polled: Polled<T>) -> (again: bool)
        requires
            old(self).wf(),
        ensures
            final(self).wf(),
            !old(self)@.samples_open ==> !again && final(self)@ == old(self)@,
            old(self)@.samples_open ==> match polled {
                Polled::Item(sample) => again && final(self)@ == (SessionState {
                    series: push_bounded(old(self)@.series, sample, SERIES_CAPACITY as nat),
                    ..old(self)@
                }),
                Polled::Empty => !again && final(self)@ == old(self)@,
                Polled::Disconnected => !again && final(self)@ == (SessionState {
                    samples_open: false,
                    ..old(self)@
                }),
            },
    {
        if !self.samples_open {
            return false;
        }
        match polled {
            Polled::Item(sample) => {
                self.series.push(sample);
                true
            },
            Polled::Empty => false,
            Polled::Disconnected => {
                self.samples_open = false;
                false
            },
        }
    }

    /// Takes what a poll of the channel of heatmaps found. A heatmap takes
    /// the place of the one that is shown, as a whole; a channel whose
    /// sender is gone is polled no more. Where the channel is no longer
    /// polled, nothing happens.
    pub fn on_heatmap_poll(&mut self, polled: Polled<Vec<Vec<u8>>>)
        ensures
            final(self).wf() == old(self).wf(),
            !old(self)@.heatmaps_open ==> final(self)@ == old(self)@,
            old(self)@.heatmaps_open ==> match polled {
                Polled::Item(grid) => final(self)@ == (SessionState {
                    heatmap: rows_of(grid@),
                    ..old(self)@
                }),
                Polled::Empty => final(self)@ == old(self)@,
                Polled::Disconnected => final(self)@ == (SessionState {
                    heatmaps_open: false,
                    ..old(self)@
                }),
            },
    {
        if !self.heatmaps_open {
            return;
        }
        match polled {
            Polled::Item(grid) => {
                self.heatmap = Heatmap { values: grid };
            },
            Polled::Empty => {},
            Polled::Disconnected => {
                self.heatmaps_open = false;
            },
        }
    }

    /// Takes what a poll of the channel of the final word found, and says
    /// whether the session has ended by it. A final word ends the session
    /// with the outcome that it reports; an empty channel means that the
    /// worker still runs; a channel whose sender is gone means that the
    /// worker vanished, which ends the session too. Where the channel is no
    /// longer polled, nothing happens.
    pub fn on_worker_poll(&mut self, polled: Polled<Result<(), String>>) -> (done: bool)
        ensures
            final(self).wf() == old(self).wf(),
            !old(self)@.worker_open ==> !done && final(self)@ == old(self)@,
            old(self)@.worker_open ==> match polled {
                Polled::Item(Ok(_)) => done && final(self)@ == ended(
                    old(self)@,
                    OutcomeView::Succeeded,
                ),
                Polled::Item(Err(text)) => done && final(self)@ == ended(
                    old(self)@,
                    OutcomeView::Failed(text@),
                ),
                Polled::Empty => !done && final(self)@ == old(self)@,
                Polled::Disconnected => done && final(self)@ == vanished(old(self)@),
            },
    {
        if !self.worker_open {
            return false;
        }
        match polled {
            Polled::Item(word) => {
                self.outcome = Some(
                    match word {
                        Ok(_) => Outcome::Succeeded,
                        Err(text) => Outcome::Failed(text),
                    },
                );
                self.step = Step::Finished;
                self.timing = false;
                self.auto_switched = false;
                self.full_screen_plot = false;
                self.worker_open = false;
                true
            },
            Polled::Empty => false,
            Polled::Disconnected => {
                self.outcome = Some(Outcome::WorkerVanished);
                self.step = Step::Finished;
                self.worker_open = false;
                true
            },
        }
    }

    /// Turns the interface to the live plot alone once a recording has run
    /// for `AUTO_SWITCH_SECS` seconds, and only once for each recording.
    pub fn check_auto_switch(&mut self, elapsed_secs: u64)
        ensures
            final(self).wf() == old(self).wf(),
            final(self)@ == auto_switched(old(self)@, elapsed_secs),
    {
        match self.step {
            Step::Recording => {
                if !self.auto_switched && self.timing && elapsed_secs >= AUTO_SWITCH_SECS {
                    self.full_screen_plot = true;
                    self.auto_switched = true;
                }
            },
            _ => {},
        }
    }
}

} // verus!
