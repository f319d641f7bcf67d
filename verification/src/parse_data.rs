//! The recording worker: what it tells the radio, and what it makes of the
//! bytes that come back. The worker decides; whoever drives it owns the
//! serial device and the files, carries out what the worker asks for and
//! hands back what happened.

use vstd::prelude::*;
use vstd::slice::slice_to_vec;
use vstd::string::StringSliceAdditionalSpecFns;
use vstd::utf8::{decode_utf8, valid_utf8};
use crate::bounded::{push_bounded, Bounded};
use crate::csi_packet::{feed, idle, CsiCliParser, CsiPacket, Frame, ParserState};
use crate::csv_utils::{csv_header, csv_row, generate_csv_header, write_csv_line};
use crate::decimal::{render_nat, write_u64};
use crate::detect_motion::{iq_for_subcarrier, sample_at};
use crate::esp_port::{command_text, send_cli_command};
use crate::heatmap::{copy_rows, live_row, live_row_of, rows_of};
use crate::text::{chars_of, split, split_fields, views};
use crate::wifi_mode::{apply_wifi_config, wifi_config_text, WifiMode};

verus! {

/// The speed of the serial line, in bits per second. The line carries eight
/// data bits, no parity and one stop bit.
pub const BAUD_RATE: u32 = 115_200;

/// How long a read waits for bytes, in milliseconds.
pub const READ_TIMEOUT_MS: u64 = 100;

/// How many bytes one read asks for.
pub const READ_BUFFER_SIZE: usize = 2048;

/// How long the worker pauses when a read would block, in milliseconds.
pub const WOULD_BLOCK_PAUSE_MS: u64 = 10;

/// How many rows the heatmap of a running capture keeps.
pub const HEATMAP_ROWS: usize = 50;

/// After how many accepted frames the heatmap is handed out again.
pub const HEATMAP_INTERVAL: u32 = 100;

/// How the serial line to the radio is set.
#[derive(Debug, Clone, Copy, PartialEq, Eq, Structural)]
pub struct PortSettings {
    /// Bits per second.
    pub baud_rate: u32,
    /// Data bits in a character.
    pub data_bits: u8,
    /// Whether a parity bit follows the data bits.
    pub parity: bool,
    /// Stop bits after a character.
    pub stop_bits: u8,
    /// Whether the flow of data is controlled.
    pub flow_control: bool,
    /// How long a read waits for bytes, in milliseconds.
    pub timeout_ms: u64,
}

/// The settings of the line to the radio: 115200 bits per second, eight data
/// bits, no parity, one stop bit, no flow control, and reads that give up
/// after 100 milliseconds.
pub open spec fn line_settings() -> PortSettings {
    PortSettings {
        baud_rate: BAUD_RATE,
        data_bits: 8,
        parity: false,
        stop_bits: 1,
        flow_control: false,
        timeout_ms: READ_TIMEOUT_MS,
    }
}

/// Where a recording session stands.
#[derive(Debug, Clone, Copy, PartialEq, Eq, Structural)]
pub enum WorkerPhase {
    /// Nothing has been asked of the radio yet.
    Idle,
    /// The radio is being opened and set up.
    Configuring,
    /// Frames are being read.
    Capturing,
    /// The requested time has passed.
    Completed,
    /// The serial device or the table failed.
    Failed,
}

/// One thing that the worker asks for while it sets the radio up.
pub enum PortStepView {
    Open(PortSettings),
    RaiseReady,
    Sleep(u64),
    ClearBuffers,
    Send(Seq<char>),
}

/// One thing that the worker asks for while it sets the radio up.
#[derive(Debug)]
pub enum PortStep {
    /// Open the serial device with these settings.
    Open(PortSettings),
    /// Raise the line that says the terminal is ready, which resets the
    /// radio.
    RaiseReady,
    /// Wait for so many milliseconds.
    Sleep(u64),
    /// Throw away what the operating system has buffered for the device.
    ClearBuffers,
    /// Send this text and flush.
    Send(String),
}

impl View for PortStep {
    type V = PortStepView;

    open spec fn view(&self) -> PortStepView {
        match self {
            PortStep::Open(settings) => PortStepView::Open(*settings),
            PortStep::RaiseReady => PortStepView::RaiseReady,
            PortStep::Sleep(ms) => PortStepView::Sleep(*ms),
            PortStep::ClearBuffers => PortStepView::ClearBuffers,
            PortStep::Send(text) => PortStepView::Send(text@),
        }
    }
}

/// What the worker does about a read that brought no bytes.
#[derive(Debug, Clone, Copy, PartialEq, Eq, Structural)]
pub enum ReadFault {
    /// The read timed out.
    TimedOut,
    /// The read would have blocked.
    WouldBlock,
    /// Any other failure of the device.
    Other,
}

/// How the capture goes on after a read that brought no bytes.
#[derive(Debug, Clone, Copy, PartialEq, Eq, Structural)]
pub enum Reaction {
    /// Read again at once.
    Retry,
    /// Wait for so many milliseconds, then read again.
    Pause(u64),
    /// Give the capture up.
    Abort,
}

/// What an accepted frame gives rise to.
pub struct FrameOutput {
    /// How many frames were accepted before this one.
    pub index: u64,
    /// The frame.
    pub frame: Frame,
    /// What is appended to the table: for the first frame the header line,
    /// and for every frame its own line.
    pub table_text: Seq<char>,
    /// The `(I, Q)` pair of the subcarrier that is watched, where the frame
    /// has it.
    pub sample: Option<(i32, i32)>,
    /// The heatmap of the newest frames, where it is due.
    pub snapshot: Option<Seq<Seq<u8>>>,
}

/// What an accepted frame gives rise to.
#[derive(Debug)]
pub struct FrameRecord {
    /// How many frames were accepted before this one.
    pub index: u64,
    /// The frame.
    pub packet: CsiPacket,
    /// What is appended to the table.
    pub table_text: String,
    /// The `(I, Q)` pair of the subcarrier that is watched.
    pub sample: Option<(i32, i32)>,
    /// The heatmap of the newest frames, where it is due.
    pub snapshot: Option<Vec<Vec<u8>>>,
}

impl View for FrameRecord {
    type V = FrameOutput;

    open spec fn view(&self) -> FrameOutput {
        FrameOutput {
            index: self.index,
            frame: self.packet@,
            table_text: self.table_text@,
            sample: self.sample,
            snapshot: match self.snapshot {
                Some(grid) => Some(rows_of(grid@)),
                None => None,
            },
        }
    }
}

/// What each record of `v` holds.
pub open spec fn outputs_of(v: Seq<FrameRecord>) -> Seq<FrameOutput> {
    Seq::new(v.len(), |i: int| v[i]@)
}

/// What a recording session is asked to do, and how far it has come.
pub struct RecorderState {
    pub mode: WifiMode,
    pub ssid: Seq<char>,
    pub password: Seq<char>,
    pub duration_secs: u64,
    pub subcarrier: usize,
    pub phase: WorkerPhase,
    pub parser: ParserState,
    /// The text that came after the last line end.
    pub pending: Seq<char>,
    pub header_written: bool,
    /// How many frames were accepted, as far as 64 bits count.
    pub frames: u64,
    /// How many frames were accepted since the heatmap was last handed out.
    pub since_snapshot: nat,
    /// The rows of the newest frames, oldest first.
    pub ring: Seq<Seq<u8>>,
}

/// The command that starts a capture of `duration_secs` seconds.
pub open spec fn start_command(duration_secs: u64) -> Seq<char> {
    command_text("start --duration="@ + render_nat(duration_secs as nat))
}

/// What sets the radio up, in order: open the device, reset the radio and
/// let it boot, drop stale input, send the configuration and let it settle,
/// send the start command and let it take effect.
pub open spec fn configuration_plan(st: RecorderState) -> Seq<PortStepView> {
    seq![
        PortStepView::Open(line_settings()),
        PortStepView::RaiseReady,
        PortStepView::Sleep(100),
        PortStepView::ClearBuffers,
        PortStepView::Send(wifi_config_text(st.mode, st.ssid, st.password)),
        PortStepView::Sleep(200),
        PortStepView::Send(start_command(st.duration_secs)),
        PortStepView::Sleep(100),
    ]
}

/// What is appended to the table for `frame`: its line, and before it the
/// header where no line was written yet.
pub open spec fn table_text(header_written: bool, frame: Frame) -> Seq<char> {
    let header = if header_written {
        Seq::empty()
    } else {
        csv_header(frame.values.len()) + seq!['\n']
    };
    header + csv_row(frame) + seq!['\n']
}

/// One more, as far as 64 bits count.
pub open spec fn counted(n: u64) -> u64 {
    if n < u64::MAX {
        (n + 1) as u64
    } else {
        n
    }
}

/// What an accepted frame does to a capture.
pub open spec fn on_frame(st: RecorderState, frame: Frame) -> (RecorderState, FrameOutput) {
    let ring = push_bounded(st.ring, live_row(frame.values), HEATMAP_ROWS as nat);
    let due = st.since_snapshot + 1 == HEATMAP_INTERVAL;
    (
        RecorderState {
            header_written: true,
            frames: counted(st.frames),
            since_snapshot: if due {
                0
            } else {
                st.since_snapshot + 1
            },
            ring: ring,
            ..st
        },
        FrameOutput {
            index: st.frames,
            frame: frame,
            table_text: table_text(st.header_written, frame),
            sample: sample_at(frame.values, st.subcarrier as nat),
            snapshot: if due {
                Some(ring)
            } else {
                None
            },
        },
    )
}

/// What one line of the console does to a capture.
pub open spec fn on_line(st: RecorderState, line: Seq<char>) -> (RecorderState, Option<FrameOutput>) {
    let (parser, frame) = feed(st.parser, line);
    let fed = RecorderState { parser: parser, ..st };
    match frame {
        Some(f) => (on_frame(fed, f).0, Some(on_frame(fed, f).1)),
        None => (fed, None),
    }
}

/// What lines of the console do to a capture, one after the other.
pub open spec fn on_lines(st: RecorderState, lines: Seq<Seq<char>>) -> (
    RecorderState,
    Seq<FrameOutput>,
)
    decreases lines.len(),
{
    if lines.len() == 0 {
        (st, Seq::empty())
    } else {
        let (before, out) = on_lines(st, lines.drop_last());
        let (after, record) = on_line(before, lines.last());
        (
            after,
            match record {
                Some(r) => out.push(r),
                None => out,
            },
        )
    }
}

/// What a piece of text from the console does to a recording session. While
/// the session captures, the text is put behind what is pending; every line
/// that a line feed ends is taken in turn, and what follows the last line
/// feed is pending from then on. In any other phase nothing happens.
pub open spec fn on_text(st: RecorderState, chunk: Seq<char>) -> (RecorderState, Seq<FrameOutput>) {
    if st.phase == WorkerPhase::Capturing {
        let fields = split(st.pending + chunk, '\n');
        let (after, out) = on_lines(st, fields.drop_last());
        (RecorderState { pending: fields.last(), ..after }, out)
    } else {
        (st, Seq::empty())
    }
}

/// What bytes from the device do to a recording session: bytes that are no
/// UTF-8 are dropped as a whole, others are taken as text.
pub open spec fn on_data(st: RecorderState, bytes: Seq<u8>) -> (RecorderState, Seq<FrameOutput>) {
    if valid_utf8(bytes) {
        on_text(st, decode_utf8(bytes))
    } else {
        (st, Seq::empty())
    }
}

/// How the capture goes on after a read that brought no bytes.
pub open spec fn reaction_to(fault: ReadFault) -> Reaction {
    match fault {
        ReadFault::TimedOut => Reaction::Retry,
        ReadFault::WouldBlock => Reaction::Pause(WOULD_BLOCK_PAUSE_MS),
        ReadFault::Other => Reaction::Abort,
    }
}

/// `std::str::from_utf8` succeeds on the bytes that are valid UTF-8 and on
/// no others, and the string that it gives is made of those very bytes.
#[verifier::external_body]
fn utf8_text(bytes: &[u8]) -> (out: Option<&str>)
    ensures
        out is Some <==> valid_utf8(bytes@),
        out matches Some(s) ==> s.spec_bytes() == bytes@,
{
    std::str::from_utf8(bytes).ok()
}

/// One recording session.
#[derive(Debug)]
pub struct Recorder {
    mode: WifiMode,
    ssid: String,
    password: String,
    duration_secs: u64,
    subcarrier: usize,
    phase: WorkerPhase,
    parser: CsiCliParser,
    pending: Vec<char>,
    header_written: bool,
    frames: u64,
    since_snapshot: u32,
    ring: Bounded<Vec<u8>>,
}

impl View for Recorder {
    type V = RecorderState;

    closed spec fn view(&self) -> RecorderState {
        RecorderState {
            mode: self.mode,
            ssid: self.ssid@,
            password: self.password@,
            duration_secs: self.duration_secs,
            subcarrier: self.subcarrier,
            phase: self.phase,
            parser: self.parser@,
            pending: self.pending@,
            header_written: self.header_written,
            frames: self.frames,
            since_snapshot: self.since_snapshot as nat,
            ring: rows_of(self.ring@),
        }
    }
}

impl Recorder {
    /// A session is well formed when its heatmap has room for `HEATMAP_ROWS`
    /// rows and holds no more, and the count of frames since the last
    /// snapshot is below `HEATMAP_INTERVAL`.
    pub closed spec fn wf(&self) -> bool {
        &&& self.ring.wf()
        &&& self.ring.cap() == HEATMAP_ROWS
        &&& self.since_snapshot < HEATMAP_INTERVAL
    }

    /// A session that has not begun: it will set the radio up for `mode`,
    /// capture for `duration_secs` seconds and watch `subcarrier`.
    pub fn new(
        mode: WifiMode,
        ssid: String,
        password: String,
        duration_secs: u64,
        subcarrier: usize,
    ) -> (out: Self)
        ensures
            out.wf(),
            out@ == (RecorderState {
                mode: mode,
                ssid: ssid@,
                password: password@,
                duration_secs: duration_secs,
                subcarrier: subcarrier,
                phase: WorkerPhase::Idle,
                parser: idle(),
                pending: Seq::empty(),
                header_written: false,
                frames: 0,
                since_snapshot: 0,
                ring: Seq::empty(),
            }),
    {
        let out = Recorder {
            mode,
            ssid,
            password,
            duration_secs,
            subcarrier,
            phase: WorkerPhase::Idle,
            parser: CsiCliParser::new(),
            pending: Vec::new(),
            header_written: false,
            frames: 0,
            since_snapshot: 0,
            ring: Bounded::new(HEATMAP_ROWS),
        };
        assert(rows_of(out.ring@) =~= Seq::<Seq<u8>>::empty());
        out
    }

    /// Where the session stands.
    pub fn phase(&self) -> (out: WorkerPhase)
        ensures
            out == self@.phase,
    {
        self.phase
    }

    /// How many frames were accepted so far.
    pub fn frames(&self) -> (out: u64)
        ensures
            out == self@.frames,
    {
        self.frames
    }

    /// Whether a capture that has run for `elapsed_nanos` nanoseconds has
    /// time left.
    pub fn has_time_left(&self, elapsed_nanos: u128) -> (out: bool)
        ensures
            out == (elapsed_nanos < self@.duration_secs * 1_000_000_000),
    {
        elapsed_nanos < (self.duration_secs as u128) * 1_000_000_000
    }

    /// Begins the session: an idle session starts to configure and says what
    /// is to be done to the device, in order. A session that has begun
    /// already stays as it is and asks for nothing.
    pub fn begin(&mut self) -> (plan: Vec<PortStep>)
        requires
            old(self).wf(),
        ensures
            final(self).wf(),
            old(self)@.phase == WorkerPhase::Idle ==> final(self)@ == (RecorderState {
                phase: WorkerPhase::Configuring,
                ..old(self)@
            }) && Seq::new(plan@.len(), |i: int| plan@[i]@) == configuration_plan(old(self)@),
            old(self)@.phase != WorkerPhase::Idle ==> final(self)@ == old(self)@ && plan@.len()
                == 0,
    {
        let mut plan: Vec<PortStep> = Vec::new();
        match self.phase {
            WorkerPhase::Idle => {},
            _ => {
                return plan;
            },
        }
        self.phase = WorkerPhase::Configuring;
        let mut config = String::new();
        apply_wifi_config(&mut config, self.mode, self.ssid.as_str(), self.password.as_str());
        let mut start = String::new();
        start.append("start --duration=");
        write_u64(&mut start, self.duration_secs);
        let mut start_text = String::new();
        send_cli_command(&mut start_text, start.as_str());
        plan.push(
            PortStep::Open(
                PortSettings {
                    baud_rate: BAUD_RATE,
                    data_bits: 8,
                    parity: false,
                    stop_bits: 1,
                    flow_control: false,
                    timeout_ms: READ_TIMEOUT_MS,
                },
            ),
        );
        plan.push(PortStep::RaiseReady);
        plan.push(PortStep::Sleep(100));
        plan.push(PortStep::ClearBuffers);
        plan.push(PortStep::Send(config));
        plan.push(PortStep::Sleep(200));
        plan.push(PortStep::Send(start_text));
        plan.push(PortStep::Sleep(100));
        plan
    }

    /// Tells the session that the device is set up: a session that
    /// configures starts to capture. In any other phase nothing happens.
    pub fn configured(&mut self)
        requires
            old(self).wf(),
        ensures
            final(self).wf(),
            final(self)@ == (RecorderState {
                phase: if old(self)@.phase == WorkerPhase::Configuring {
                    WorkerPhase::Capturing
                } else {
                    old(self)@.phase
                },
                ..old(self)@
            }),
    {
        match self.phase {
            WorkerPhase::Configuring => {
                self.phase = WorkerPhase::Capturing;
            },
            _ => {},
        }
    }

    /// Tells the session that the requested time has passed: a session that
    /// captures is completed. In any other phase nothing happens.
    pub fn finish(&mut self)
        requires
            old(self).wf(),
        ensures
            final(self).wf(),
            final(self)@ == (RecorderState {
                phase: if old(self)@.phase == WorkerPhase::Capturing {
                    WorkerPhase::Completed
                } else {
                    old(self)@.phase
                },
                ..old(self)@
            }),
    {
        match self.phase {
            WorkerPhase::Capturing => {
                self.phase = WorkerPhase::Completed;
            },
            _ => {},
        }
    }

    /// Tells the session that the device or the table failed: a session that
    /// configures or captures has failed. A session that has not begun or
    /// has ended stays as it is.
    pub fn fail(&mut self)
        requires
            old(self).wf(),
        ensures
            final(self).wf(),
            final(self)@ == (RecorderState {
                phase: if old(self)@.phase == WorkerPhase::Configuring || old(self)@.phase
                    == WorkerPhase::Capturing {
                    WorkerPhase::Failed
                } else {
                    old(self)@.phase
                },
                ..old(self)@
            }),
    {
        match self.phase {
            WorkerPhase::Configuring | WorkerPhase::Capturing => {
                self.phase = WorkerPhase::Failed;
            },
            _ => {},
        }
    }

    /// Tells the session that a read brought no bytes, and why. A timeout is
    /// the steady state and the capture reads again; where the read would
    /// have blocked it pauses first; any other fault ends the session as
    /// failed.
    pub fn on_read_fault(&mut self, fault: ReadFault) -> (out: Reaction)
        requires
            old(self).wf(),
        ensures
            final(self).wf(),
            out == reaction_to(fault),
            final(self)@ == (RecorderState {
                phase: if fault == ReadFault::Other && (old(self)@.phase
                    == WorkerPhase::Configuring || old(self)@.phase == WorkerPhase::Capturing) {
                    WorkerPhase::Failed
                } else {
                    old(self)@.phase
                },
                ..old(self)@
            }),
    {
        match fault {
            ReadFault::TimedOut => Reaction::Retry,
            ReadFault::WouldBlock => Reaction::Pause(WOULD_BLOCK_PAUSE_MS),
            ReadFault::Other => {
                self.fail();
                Reaction::Abort
            },
        }
    }

    /// Takes an accepted frame into the capture.
    fn take_frame(&mut self, packet: CsiPacket) -> (out: FrameRecord)
        requires
            old(self).wf(),
        ensures
            final(self).wf(),
            final(self)@ == on_frame(old(self)@, packet@).0,
            out@ == on_frame(old(self)@, packet@).1,
    {
        let mut text = String::new();
        if !self.header_written {
            text = generate_csv_header(packet.csi_values.len());
            text.push('\n');
            self.header_written = true;
        }
        write_csv_line(&mut text, &packet);
        let sample = iq_for_subcarrier(&packet, self.subcarrier);
        let row = live_row_of(&packet);
        proof {
            let grown = push_bounded(self.ring@, row, HEATMAP_ROWS as nat);
            assert(rows_of(grown) =~= push_bounded(
                rows_of(self.ring@),
                live_row(packet@.values),
                HEATMAP_ROWS as nat,
            ));
        }
        self.ring.push(row);
        let index = self.frames;
        if self.frames < u64::MAX {
            self.frames = self.frames + 1;
        }
        let snapshot = if self.since_snapshot + 1 == HEATMAP_INTERVAL {
            self.since_snapshot = 0;
            Some(copy_rows(self.ring.as_slice()))
        } else {
            self.since_snapshot = self.since_snapshot + 1;
            None
        };
        let out = FrameRecord { index, packet, table_text: text, sample, snapshot };
        assert(out@.table_text =~= table_text(old(self)@.header_written, packet@));
        out
    }

    /// Takes one line of the console into the capture.
    fn take_line(&mut self, line: &[char]) -> (out: Option<FrameRecord>)
        requires
            old(self).wf(),
        ensures
            final(self).wf(),
            final(self)@ == on_line(old(self)@, line@).0,
            match out {
                Some(r) => on_line(old(self)@, line@).1 == Some(r@),
                None => on_line(old(self)@, line@).1 is None,
            },
    {
        match self.parser.feed_chars(line) {
            Some(packet) => Some(self.take_frame(packet)),
            None => None,
        }
    }

    /// Takes a piece of text from the console and hands out what the frames
    /// that it completes give rise to, in order.
    pub fn on_text(&mut self, chunk: &str) -> (out: Vec<FrameRecord>)
        requires
            old(self).wf(),
        ensures
            final(self).wf(),
            final(self)@ == on_text(old(self)@, chunk@).0,
            outputs_of(out@) == on_text(old(self)@, chunk@).1,
    {
        let mut out: Vec<FrameRecord> = Vec::new();
        match self.phase {
            WorkerPhase::Capturing => {},
            _ => {
                return out;
            },
        }
        let mut text: Vec<char> = Vec::new();
        text.append(&mut self.pending);
        let mut fresh = chars_of(chunk);
        text.append(&mut fresh);
        let fields = split_fields(text.as_slice(), '\n');
        let ghost all = views(fields@);
        let ghost start = old(self)@;
        proof {
            crate::text::lemma_split_not_empty(text@, '\n');
        }
        let last = fields.len() - 1;
        let ghost lines = all.drop_last();
        let mut i: usize = 0;
        while i < last
            invariant
                i <= last,
                last == fields.len() - 1,
                all == views(fields@),
                lines == all.drop_last(),
                self.wf(),
                self@ == (RecorderState { pending: Seq::empty(), ..on_lines(start, lines.take(i as int)).0 }),
                outputs_of(out@) == on_lines(start, lines.take(i as int)).1,
            decreases last - i,
        {
            proof {
                let done = lines.take(i as int);
                let next = lines.take(i + 1);
                assert(next.drop_last() =~= done);
                lemma_on_lines_pending(start, done);
                lemma_on_line_pending(on_lines(start, done).0, self@, fields@[i as int]@);
            }
            match self.take_line(fields[i]) {
                Some(record) => {
                    out.push(record);
                },
                None => {},
            }
            i = i + 1;
        }
        self.pending = slice_to_vec(fields[last]);
        proof {
            assert(lines.take(last as int) =~= lines);
        }
        out
    }

    /// Takes the bytes that a read brought and hands out what the frames
    /// that they complete give rise to, in order.
    pub fn on_data(&mut self, bytes: &[u8]) -> (out: Vec<FrameRecord>)
        requires
            old(self).wf(),
        ensures
            final(self).wf(),
            final(self)@ == on_data(old(self)@, bytes@).0,
            outputs_of(out@) == on_data(old(self)@, bytes@).1,
    {
        match utf8_text(bytes) {
            Some(chunk) => {
                proof {
                    vstd::utf8::encode_utf8_decode_utf8(chunk@);
                }
                self.on_text(chunk)
            },
            None => {
                let out: Vec<FrameRecord> = Vec::new();
                out
            },
        }
    }
}

/// Whatever lines a capture takes: the header goes into the table with the
/// first frame that is accepted and never again; the heatmap is handed out
/// with every frame that makes `HEATMAP_INTERVAL` since the last time, and
/// with no other; and the heatmap never holds more than `HEATMAP_ROWS` rows.
pub proof fn lemma_on_lines_outputs(st: RecorderState, lines: Seq<Seq<char>>)
    requires
        st.since_snapshot < HEATMAP_INTERVAL,
        st.ring.len() <= HEATMAP_ROWS,
    ensures
        ({
            let (after, out) = on_lines(st, lines);
            &&& after.header_written == (st.header_written || out.len() > 0)
            &&& forall|i: int|
                0 <= i < out.len() ==> (#[trigger] out[i]).table_text == table_text(
                    st.header_written || i > 0,
                    out[i].frame,
                )
            &&& after.since_snapshot == (st.since_snapshot + out.len()) % (HEATMAP_INTERVAL as nat)
            &&& forall|i: int|
                0 <= i < out.len() ==> ((#[trigger] out[i]).snapshot is Some <==> (st.since_snapshot
                    + i + 1) % (HEATMAP_INTERVAL as int) == 0)
            &&& after.ring.len() <= HEATMAP_ROWS
        }),
    decreases lines.len(),
{
    if lines.len() > 0 {
        lemma_on_lines_outputs(st, lines.drop_last());
    }
}

/// Taking lines in two runs is taking them in one.
pub proof fn lemma_on_lines_in_runs(st: RecorderState, a: Seq<Seq<char>>, b: Seq<Seq<char>>)
    ensures
        on_lines(st, a + b) == (
            on_lines(on_lines(st, a).0, b).0,
            on_lines(st, a).1 + on_lines(on_lines(st, a).0, b).1,
        ),
    decreases b.len(),
{
    if b.len() > 0 {
        lemma_on_lines_in_runs(st, a, b.drop_last());
        assert((a + b).drop_last() =~= a + b.drop_last());
    }
}

/// What lines do to a capture does not depend on what is pending.
proof fn lemma_on_lines_whatever_pends(a: RecorderState, b: RecorderState, lines: Seq<Seq<char>>)
    requires
        b == (RecorderState { pending: b.pending, ..a }),
    ensures
        on_lines(b, lines).0 == (RecorderState { pending: b.pending, ..on_lines(a, lines).0 }),
        on_lines(b, lines).1 == on_lines(a, lines).1,
    decreases lines.len(),
{
    if lines.len() > 0 {
        lemma_on_lines_whatever_pends(a, b, lines.drop_last());
        lemma_on_line_pending(
            on_lines(a, lines.drop_last()).0,
            on_lines(b, lines.drop_last()).0,
            lines.last(),
        );
    }
}

/// Text may arrive in any pieces: a capture that takes a text in two pieces
/// ends in the state, and hands out the frames, of a capture that takes it
/// in one.
pub proof fn lemma_text_in_pieces(st: RecorderState, a: Seq<char>, b: Seq<char>)
    ensures
        on_text(st, a + b) == (
            on_text(on_text(st, a).0, b).0,
            on_text(st, a).1 + on_text(on_text(st, a).0, b).1,
        ),
{
    if st.phase == WorkerPhase::Capturing {
        let x = st.pending + a;
        let f1 = split(x, '\n');
        crate::text::lemma_split_continued(x, b, '\n');
        let f2 = split(f1.last() + b, '\n');
        crate::text::lemma_split_not_empty(f1.last() + b, '\n');
        assert(st.pending + (a + b) =~= x + b);
        let whole = split(x + b, '\n');
        assert(whole.drop_last() =~= f1.drop_last() + f2.drop_last());
        let run1 = on_lines(st, f1.drop_last());
        let s1 = RecorderState { pending: f1.last(), ..run1.0 };
        lemma_on_lines_pending(st, f1.drop_last());
        lemma_on_lines_in_runs(st, f1.drop_last(), f2.drop_last());
        lemma_on_lines_whatever_pends(run1.0, s1, f2.drop_last());
    }
}

/// Lines change nothing of a capture but its parser, its counts, its
/// heatmap and whether the header is written.
proof fn lemma_on_lines_pending(st: RecorderState, lines: Seq<Seq<char>>)
    ensures
        on_lines(st, lines).0.pending == st.pending,
        on_lines(st, lines).0.phase == st.phase,
    decreases lines.len(),
{
    if lines.len() > 0 {
        lemma_on_lines_pending(st, lines.drop_last());
    }
}

/// What a line does to a capture does not depend on what is pending.
proof fn lemma_on_line_pending(a: RecorderState, b: RecorderState, line: Seq<char>)
    requires
        b == (RecorderState { pending: b.pending, ..a }),
    ensures
        on_line(b, line).0 == (RecorderState { pending: b.pending, ..on_line(a, line).0 }),
        on_line(b, line).1 == on_line(a, line).1,
{
}

} // verus!
