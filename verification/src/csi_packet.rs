//! The frame that the radio reports, and the parser that rebuilds frames from
//! the lines of its console.

use vstd::prelude::*;
use vstd::slice::slice_subrange;
use crate::decimal::{
    lemma_parse_render_i32, lemma_parse_render_u64, lemma_render_int_chars,
    lemma_render_nat, parse_i32, parse_u64, read_i32, read_u64, render_int, render_nat,
};
use crate::text::{
    chars_of, has_prefix, is_space, lemma_split_push, lemma_split_single, lemma_trim_gap,
    lemma_trim_tight, split, split_fields, starts_with, trim, trimmed, views,
};

verus! {

/// How many raw values the payload of a frame holds: two for each of the 64
/// subcarriers that the radio reports.
pub const EXPECTED_CSI_VALUES: usize = 128;

/// What a frame is: when it was taken, how strong the signal was, and the raw
/// values, an in-phase and a quadrature component for each subcarrier in
/// turn.
pub struct Frame {
    pub timestamp: u64,
    pub rssi: i32,
    pub values: Seq<i32>,
}

/// One frame of channel state information.
#[derive(Debug)]
pub struct CsiPacket {
    /// Microseconds since the radio booted.
    pub esp_timestamp: u64,
    /// Received signal strength.
    pub rssi: i32,
    /// Raw values: `I` and `Q` of each subcarrier in turn.
    pub csi_values: Vec<i32>,
}

impl View for CsiPacket {
    type V = Frame;

    open spec fn view(&self) -> Frame {
        Frame { timestamp: self.esp_timestamp, rssi: self.rssi, values: self.csi_values@ }
    }
}

/// The pairs `(I, Q)` that `values` holds, one for each subcarrier; a last
/// value without a partner is left out.
pub open spec fn iq_pairs(values: Seq<i32>) -> Seq<(i32, i32)> {
    Seq::new((values.len() / 2) as nat, |k: int| (values[2 * k], values[2 * k + 1]))
}

/// The squared amplitude `I^2 + Q^2` of one subcarrier.
pub open spec fn squared_amplitude(i: i32, q: i32) -> nat {
    (i * i + q * q) as nat
}

/// The squared amplitude of each subcarrier of `values`.
pub open spec fn squared_amplitudes(values: Seq<i32>) -> Seq<nat> {
    Seq::new(
        (values.len() / 2) as nat,
        |k: int| squared_amplitude(values[2 * k], values[2 * k + 1]),
    )
}

/// Computes `I^2 + Q^2`.
pub fn squared_amplitude_of(i: i32, q: i32) -> (a: u64)
    ensures
        a == squared_amplitude(i, q),
        a <= 0x8000_0000_0000_0000,
{
    let x: i64 = i as i64;
    let y: i64 = q as i64;
    assert(0 <= x * x <= 0x4000_0000_0000_0000) by (nonlinear_arith)
        requires
            -0x8000_0000 <= x <= 0x7fff_ffff,
    ;
    assert(0 <= y * y <= 0x4000_0000_0000_0000) by (nonlinear_arith)
        requires
            -0x8000_0000 <= y <= 0x7fff_ffff,
    ;
    let xx: u64 = (x * x) as u64;
    let yy: u64 = (y * y) as u64;
    xx + yy
}

impl Clone for CsiPacket {
    fn clone(&self) -> (out: Self)
        ensures
            out@ == self@,
    {
        CsiPacket {
            esp_timestamp: self.esp_timestamp,
            rssi: self.rssi,
            csi_values: self.csi_values.clone(),
        }
    }
}

impl CsiPacket {
    /// A frame is well formed when its payload pairs up: an even number of
    /// raw values.
    pub open spec fn wf(&self) -> bool {
        self.csi_values@.len() % 2 == 0
    }

    /// The number of subcarriers that the frame reports.
    pub open spec fn subcarriers(&self) -> nat {
        (self.csi_values@.len() / 2) as nat
    }

    /// The `(I, Q)` pair of each subcarrier, in order.
    pub fn get_iq_pairs(&self) -> (out: Vec<(i32, i32)>)
        ensures
            out@ == iq_pairs(self.csi_values@),
    {
        let n = self.csi_values.len() / 2;
        let mut out: Vec<(i32, i32)> = Vec::new();
        let mut k: usize = 0;
        while k < n
            invariant
                k <= n,
                n == self.csi_values@.len() / 2,
                2 * n <= self.csi_values.len(),
                out@ == iq_pairs(self.csi_values@).take(k as int),
            decreases n - k,
        {
            out.push((self.csi_values[2 * k], self.csi_values[2 * k + 1]));
            k = k + 1;
        }
        out
    }

    /// The squared amplitude `I^2 + Q^2` of each subcarrier, in order.
    pub fn get_squared_amplitudes(&self) -> (out: Vec<u64>)
        ensures
            out@.len() == self.subcarriers(),
            forall|k: int|
                0 <= k < out@.len() ==> out@[k] == squared_amplitudes(self.csi_values@)[k],
    {
        let n = self.csi_values.len() / 2;
        let mut out: Vec<u64> = Vec::new();
        let mut k: usize = 0;
        while k < n
            invariant
                k <= n,
                n == self.csi_values@.len() / 2,
                2 * n <= self.csi_values.len(),
                out@.len() == k,
                forall|j: int|
                    0 <= j < k ==> out@[j] == squared_amplitudes(self.csi_values@)[j],
            decreases n - k,
        {
            out.push(squared_amplitude_of(self.csi_values[2 * k], self.csi_values[2 * k + 1]));
            k = k + 1;
        }
        out
    }
}

/// What the parser remembers between lines.
pub struct ParserState {
    /// The timestamp that the next frame will carry, once announced.
    pub timestamp: Option<u64>,
    /// The signal strength that the next frame will carry, once announced.
    pub rssi: Option<i32>,
    /// Whether the next bracketed line is a payload.
    pub armed: bool,
}

/// The shapes of line that the console of the radio prints.
#[derive(Clone, Copy, Debug, PartialEq, Eq, Structural)]
pub enum LineKind {
    /// Blank, a prompt, free text, or a metadata line whose number cannot be
    /// read.
    Noise,
    /// The signal strength of the frame that follows.
    SignalStrength(i32),
    /// The timestamp of the frame that follows.
    Timestamp(u64),
    /// The announcement that raw data comes next.
    Marker,
    /// A line that opens with a bracket.
    Bracketed,
}

/// What a line that reports the signal strength begins with.
pub open spec fn signal_strength_key() -> Seq<char> {
    "signal-strength:"@
}

/// What a line that reports the timestamp begins with.
pub open spec fn timestamp_key() -> Seq<char> {
    "timestamp:"@
}

/// What the line that announces raw data begins with.
pub open spec fn marker_key() -> Seq<char> {
    "csi raw data"@
}

/// The shape of a line that has no white space at its ends.
pub open spec fn line_kind(t: Seq<char>) -> LineKind {
    if t.len() == 0 || t[0] == '>' {
        LineKind::Noise
    } else if starts_with(t, signal_strength_key()) {
        match parse_i32(trim(t.skip(signal_strength_key().len() as int))) {
            Some(v) => LineKind::SignalStrength(v),
            None => LineKind::Noise,
        }
    } else if starts_with(t, timestamp_key()) {
        match parse_u64(trim(t.skip(timestamp_key().len() as int))) {
            Some(v) => LineKind::Timestamp(v),
            None => LineKind::Noise,
        }
    } else if starts_with(t, marker_key()) {
        LineKind::Marker
    } else if t[0] == '[' {
        LineKind::Bracketed
    } else {
        LineKind::Noise
    }
}

/// Whether `c` is an opening or a closing square bracket.
pub open spec fn is_bracket(c: char) -> bool {
    c == '[' || c == ']'
}

/// `s` without its leading brackets.
pub open spec fn strip_brackets_start(s: Seq<char>) -> Seq<char>
    decreases s.len(),
{
    if s.len() > 0 && is_bracket(s[0]) {
        strip_brackets_start(s.skip(1))
    } else {
        s
    }
}

/// `s` without its trailing brackets.
pub open spec fn strip_brackets_end(s: Seq<char>) -> Seq<char>
    decreases s.len(),
{
    if s.len() > 0 && is_bracket(s.last()) {
        strip_brackets_end(s.drop_last())
    } else {
        s
    }
}

/// `s` without the brackets at either end.
pub open spec fn strip_brackets(s: Seq<char>) -> Seq<char> {
    strip_brackets_end(strip_brackets_start(s))
}

/// The numbers among `fields`, in order: each field is read without the
/// white space around it, and a field that is no number is passed over.
pub open spec fn numbers_in(fields: Seq<Seq<char>>) -> Seq<i32>
    decreases fields.len(),
{
    if fields.len() == 0 {
        Seq::empty()
    } else {
        let head = numbers_in(fields.drop_last());
        match parse_i32(trim(fields.last())) {
            Some(v) => head.push(v),
            None => head,
        }
    }
}

/// The values that a bracketed line holds between its brackets, separated by
/// commas.
pub open spec fn payload_values(t: Seq<char>) -> Seq<i32> {
    numbers_in(split(strip_brackets(t), ','))
}

/// The state of a parser that has seen nothing since the last frame.
pub open spec fn idle() -> ParserState {
    ParserState { timestamp: None, rssi: None, armed: false }
}

/// What one line does to the parser: the state after it, and the frame that
/// it completes, if any.
///
/// Metadata lines update what is pending; the marker arms the parser. A
/// bracketed line counts only while the parser is armed, and then always
/// resets it: a frame comes out where the payload has the expected length and
/// both timestamp and signal strength were pending.
pub open spec fn feed(st: ParserState, line: Seq<char>) -> (ParserState, Option<Frame>) {
    let t = trim(line);
    match line_kind(t) {
        LineKind::Noise => (st, None),
        LineKind::SignalStrength(v) => (ParserState { rssi: Some(v), ..st }, None),
        LineKind::Timestamp(v) => (ParserState { timestamp: Some(v), ..st }, None),
        LineKind::Marker => (ParserState { armed: true, ..st }, None),
        LineKind::Bracketed => if st.armed {
            let values = payload_values(t);
            if values.len() == EXPECTED_CSI_VALUES && st.timestamp is Some && st.rssi is Some {
                (
                    idle(),
                    Some(Frame { timestamp: st.timestamp->0, rssi: st.rssi->0, values: values }),
                )
            } else {
                (idle(), None)
            }
        } else {
            (st, None)
        },
    }
}

/// What an optional packet holds.
pub open spec fn frame_of(p: Option<CsiPacket>) -> Option<Frame> {
    match p {
        Some(p) => Some(p@),
        None => None,
    }
}

/// Tells the shape of a line that has no white space at its ends.
pub fn classify_line(t: &[char]) -> (kind: LineKind)
    ensures
        kind == line_kind(t@),
{
    if t.len() == 0 || t[0] == '>' {
        return LineKind::Noise;
    }
    let signal_key = chars_of("signal-strength:");
    let time_key = chars_of("timestamp:");
    let marker = chars_of("csi raw data");
    if has_prefix(t, signal_key.as_slice()) {
        let rest = slice_subrange(t, signal_key.len(), t.len());
        match read_i32(trimmed(rest)) {
            Some(v) => LineKind::SignalStrength(v),
            None => LineKind::Noise,
        }
    } else if has_prefix(t, time_key.as_slice()) {
        let rest = slice_subrange(t, time_key.len(), t.len());
        match read_u64(trimmed(rest)) {
            Some(v) => LineKind::Timestamp(v),
            None => LineKind::Noise,
        }
    } else if has_prefix(t, marker.as_slice()) {
        LineKind::Marker
    } else if t[0] == '[' {
        LineKind::Bracketed
    } else {
        LineKind::Noise
    }
}

proof fn lemma_strip_start_skip(s: Seq<char>, i: int)
    requires
        0 <= i <= s.len(),
        forall|j: int| 0 <= j < i ==> is_bracket(s[j]),
    ensures
        strip_brackets_start(s) == strip_brackets_start(s.skip(i)),
    decreases i,
{
    if i > 0 {
        lemma_strip_start_skip(s, i - 1);
        let t = s.skip(i - 1);
        assert(t.skip(1) =~= s.skip(i));
    } else {
        assert(s.skip(0) =~= s);
    }
}

proof fn lemma_strip_end_take(s: Seq<char>, i: int)
    requires
        0 <= i <= s.len(),
        forall|j: int| i <= j < s.len() ==> is_bracket(s[j]),
    ensures
        strip_brackets_end(s) == strip_brackets_end(s.take(i)),
    decreases s.len() - i,
{
    if i < s.len() {
        lemma_strip_end_take(s.drop_last(), i);
        assert(s.drop_last().take(i) =~= s.take(i));
    } else {
        assert(s.take(i) =~= s);
    }
}

/// The part of `s` between its leading and its trailing brackets.
fn unbracketed<'a>(s: &'a [char]) -> (out: &'a [char])
    ensures
        out@ == strip_brackets(s@),
{
    let n = s.len();
    let mut a: usize = 0;
    while a < n && (s[a] == '[' || s[a] == ']')
        invariant
            a <= n,
            n == s@.len(),
            forall|j: int| 0 <= j < a ==> is_bracket(s@[j]),
        decreases n - a,
    {
        a = a + 1;
    }
    let mut b: usize = n;
    while b > a && (s[b - 1] == '[' || s[b - 1] == ']')
        invariant
            a <= b <= n,
            n == s@.len(),
            forall|j: int| b <= j < n ==> is_bracket(s@[j]),
        decreases b,
    {
        b = b - 1;
    }
    proof {
        lemma_strip_start_skip(s@, a as int);
        let t = s@.skip(a as int);
        lemma_strip_end_take(t, b - a);
    }
    slice_subrange(s, a, b)
}

/// Reads the values of a bracketed line.
pub fn read_payload(t: &[char]) -> (out: Vec<i32>)
    ensures
        out@ == payload_values(t@),
{
    let fields = split_fields(unbracketed(t), ',');
    let mut out: Vec<i32> = Vec::new();
    let mut i: usize = 0;
    while i < fields.len()
        invariant
            i <= fields.len(),
            out@ == numbers_in(views(fields@).take(i as int)),
        decreases fields.len() - i,
    {
        proof {
            let f = views(fields@).take(i + 1);
            assert(f.drop_last() =~= views(fields@).take(i as int));
        }
        match read_i32(trimmed(fields[i])) {
            Some(v) => {
                out.push(v);
            },
            None => {},
        }
        i = i + 1;
    }
    assert(views(fields@).take(fields@.len() as int) =~= views(fields@));
    out
}

/// Rebuilds frames from the lines of the console, one line at a time.
#[derive(Debug)]
pub struct CsiCliParser {
    current_timestamp: Option<u64>,
    current_rssi: Option<i32>,
    waiting_for_csi_line: bool,
}

impl View for CsiCliParser {
    type V = ParserState;

    closed spec fn view(&self) -> ParserState {
        ParserState {
            timestamp: self.current_timestamp,
            rssi: self.current_rssi,
            armed: self.waiting_for_csi_line,
        }
    }
}

impl Default for CsiCliParser {
    fn default() -> (out: Self)
        ensures
            out@ == idle(),
    {
        CsiCliParser { current_timestamp: None, current_rssi: None, waiting_for_csi_line: false }
    }
}

impl CsiCliParser {
    /// A parser that has seen nothing yet.
    pub fn new() -> (out: Self)
        ensures
            out@ == idle(),
    {
        CsiCliParser { current_timestamp: None, current_rssi: None, waiting_for_csi_line: false }
    }

    /// The timestamp that is pending, if any.
    pub fn pending_timestamp(&self) -> (out: Option<u64>)
        ensures
            out == self@.timestamp,
    {
        self.current_timestamp
    }

    /// The signal strength that is pending, if any.
    pub fn pending_rssi(&self) -> (out: Option<i32>)
        ensures
            out == self@.rssi,
    {
        self.current_rssi
    }

    /// Whether the next bracketed line will be taken as a payload.
    pub fn is_armed(&self) -> (out: bool)
        ensures
            out == self@.armed,
    {
        self.waiting_for_csi_line
    }

    /// Takes one line, given as characters, and hands out the frame that it
    /// completes, if any.
    pub fn feed_chars(&mut self, line: &[char]) -> (out: Option<CsiPacket>)
        ensures
            final(self)@ == feed(old(self)@, line@).0,
            frame_of(out) == feed(old(self)@, line@).1,
    {
        let t = trimmed(line);
        match classify_line(t) {
            LineKind::Noise => None,
            LineKind::SignalStrength(v) => {
                self.current_rssi = Some(v);
                None
            },
            LineKind::Timestamp(v) => {
                self.current_timestamp = Some(v);
                None
            },
            LineKind::Marker => {
                self.waiting_for_csi_line = true;
                None
            },
            LineKind::Bracketed => {
                if !self.waiting_for_csi_line {
                    return None;
                }
                let values = read_payload(t);
                let timestamp = self.current_timestamp;
                let rssi = self.current_rssi;
                self.waiting_for_csi_line = false;
                self.current_timestamp = None;
                self.current_rssi = None;
                if values.len() != EXPECTED_CSI_VALUES {
                    return None;
                }
                match (timestamp, rssi) {
                    (Some(ts), Some(strength)) => Some(
                        CsiPacket { esp_timestamp: ts, rssi: strength, csi_values: values },
                    ),
                    _ => None,
                }
            },
        }
    }

    /// Takes one line and hands out the frame that it completes, if any.
    pub fn feed_line(&mut self, line: &str) -> (out: Option<CsiPacket>)
        ensures
            final(self)@ == feed(old(self)@, line@).0,
            frame_of(out) == feed(old(self)@, line@).1,
    {
        let chars = chars_of(line);
        self.feed_chars(chars.as_slice())
    }
}

/// Whether `gap` holds white space only.
pub open spec fn blank(gap: Seq<char>) -> bool {
    forall|j: int| 0 <= j < gap.len() ==> is_space(gap[j])
}

/// The line that announces the timestamp `ts`, with `gap` between the key
/// and the number.
pub open spec fn timestamp_line(ts: u64, gap: Seq<char>) -> Seq<char> {
    timestamp_key() + gap + render_nat(ts as nat)
}

/// The line that announces the signal strength `rssi`, with `gap` between
/// the key and the number.
pub open spec fn signal_strength_line(rssi: i32, gap: Seq<char>) -> Seq<char> {
    signal_strength_key() + gap + render_int(rssi as int)
}

/// `values` in decimal, with a comma and `gap` between one and the next.
pub open spec fn join_values(values: Seq<i32>, gap: Seq<char>) -> Seq<char>
    decreases values.len(),
{
    if values.len() == 0 {
        Seq::empty()
    } else if values.len() == 1 {
        render_int(values[0] as int)
    } else {
        join_values(values.drop_last(), gap) + seq![','] + (gap + render_int(values.last() as int))
    }
}

/// The bracketed line that holds `values`.
pub open spec fn payload_line(values: Seq<i32>, gap: Seq<char>) -> Seq<char> {
    seq!['['] + join_values(values, gap) + seq![']']
}

/// The fields that `join_values` puts between its commas.
pub open spec fn value_fields(values: Seq<i32>, gap: Seq<char>) -> Seq<Seq<char>> {
    Seq::new(
        values.len(),
        |i: int|
            if i == 0 {
                render_int(values[0] as int)
            } else {
                gap + render_int(values[i] as int)
            },
    )
}

/// A number in decimal is not empty, neither begins nor ends with white
/// space or a bracket, and holds no comma.
pub proof fn lemma_render_int_plain(v: int)
    ensures
        render_int(v).len() > 0,
        !is_space(render_int(v)[0]),
        !is_space(render_int(v).last()),
        !is_bracket(render_int(v)[0]),
        !is_bracket(render_int(v).last()),
        forall|j: int| 0 <= j < render_int(v).len() ==> render_int(v)[j] != ',',
{
    lemma_render_int_chars(v);
}

proof fn lemma_join_values_ends(values: Seq<i32>, gap: Seq<char>)
    requires
        values.len() > 0,
    ensures
        join_values(values, gap).len() > 0,
        !is_bracket(join_values(values, gap)[0]),
        !is_bracket(join_values(values, gap).last()),
    decreases values.len(),
{
    lemma_render_int_plain(values.last() as int);
    if values.len() > 1 {
        lemma_join_values_ends(values.drop_last(), gap);
    }
}

proof fn lemma_split_join_values(values: Seq<i32>, gap: Seq<char>)
    requires
        values.len() > 0,
        blank(gap),
    ensures
        split(join_values(values, gap), ',') == value_fields(values, gap),
    decreases values.len(),
{
    let last = render_int(values.last() as int);
    lemma_render_int_plain(values.last() as int);
    if values.len() == 1 {
        lemma_split_single(last, ',');
    } else {
        let head = values.drop_last();
        lemma_split_join_values(head, gap);
        let b = gap + last;
        lemma_split_push(join_values(head, gap), b, ',');
    }
}

proof fn lemma_numbers_in_value_fields(values: Seq<i32>, gap: Seq<char>)
    requires
        blank(gap),
    ensures
        numbers_in(value_fields(values, gap)) == values,
    decreases values.len(),
{
    if values.len() > 0 {
        let head = values.drop_last();
        let last = render_int(values.last() as int);
        lemma_numbers_in_value_fields(head, gap);
        lemma_render_int_plain(values.last() as int);
        lemma_parse_render_i32(values.last());
        let f = value_fields(values, gap);
        assert(f.drop_last() =~= value_fields(head, gap));
        if values.len() == 1 {
            lemma_trim_tight(last);
        } else {
            lemma_trim_gap(gap, last);
        }
    }
}

/// A line that announces a timestamp is read as that timestamp.
pub proof fn lemma_timestamp_line(ts: u64, gap: Seq<char>)
    requires
        blank(gap),
    ensures
        line_kind(trim(timestamp_line(ts, gap))) == LineKind::Timestamp(ts),
{
    reveal_strlit("timestamp:");
    reveal_strlit("signal-strength:");
    let key = timestamp_key();
    let number = render_nat(ts as nat);
    let line = timestamp_line(ts, gap);
    lemma_render_nat(ts as nat);
    lemma_trim_tight(line);
    assert(line.take(key.len() as int) =~= key);
    assert(line.skip(key.len() as int) =~= gap + number);
    lemma_trim_gap(gap, number);
    lemma_parse_render_u64(ts);
    assert(!starts_with(line, signal_strength_key()));
}

/// A line that announces a signal strength is read as that strength.
pub proof fn lemma_signal_strength_line(rssi: i32, gap: Seq<char>)
    requires
        blank(gap),
    ensures
        line_kind(trim(signal_strength_line(rssi, gap))) == LineKind::SignalStrength(rssi),
{
    reveal_strlit("signal-strength:");
    let key = signal_strength_key();
    let number = render_int(rssi as int);
    let line = signal_strength_line(rssi, gap);
    lemma_render_int_plain(rssi as int);
    lemma_trim_tight(line);
    assert(line.take(key.len() as int) =~= key);
    assert(line.skip(key.len() as int) =~= gap + number);
    lemma_trim_gap(gap, number);
    lemma_parse_render_i32(rssi);
}

/// The announcement of raw data, whatever follows it on its line, is read
/// as the marker.
pub proof fn lemma_marker_line(rest: Seq<char>)
    requires
        rest.len() > 0 ==> !is_space(rest.last()),
    ensures
        line_kind(trim(marker_key() + rest)) == LineKind::Marker,
{
    reveal_strlit("csi raw data");
    reveal_strlit("timestamp:");
    reveal_strlit("signal-strength:");
    let key = marker_key();
    let line = key + rest;
    lemma_trim_tight(line);
    assert(line.take(key.len() as int) =~= key);
}

/// A bracketed line is read as the values that it holds.
pub proof fn lemma_payload_line(values: Seq<i32>, gap: Seq<char>)
    requires
        blank(gap),
    ensures
        line_kind(trim(payload_line(values, gap))) == LineKind::Bracketed,
        payload_values(trim(payload_line(values, gap))) == values,
{
    reveal_strlit("csi raw data");
    reveal_strlit("timestamp:");
    reveal_strlit("signal-strength:");
    let body = join_values(values, gap);
    let line = payload_line(values, gap);
    lemma_trim_tight(line);
    assert(!starts_with(line, signal_strength_key())) by {
        if starts_with(line, signal_strength_key()) {
            assert(line.take(signal_strength_key().len() as int)[0] == signal_strength_key()[0]);
        }
    }
    assert(!starts_with(line, timestamp_key())) by {
        if starts_with(line, timestamp_key()) {
            assert(line.take(timestamp_key().len() as int)[0] == timestamp_key()[0]);
        }
    }
    assert(!starts_with(line, marker_key())) by {
        if starts_with(line, marker_key()) {
            assert(line.take(marker_key().len() as int)[0] == marker_key()[0]);
        }
    }
    if values.len() > 0 {
        // The brackets come off and leave the body.
        lemma_strip_start_skip(line, 1);
        let inner = line.skip(1);
        lemma_join_values_ends(values, gap);
        lemma_strip_end_take(inner, body.len() as int);
        assert(inner.take(body.len() as int) =~= body);
        lemma_split_join_values(values, gap);
        lemma_numbers_in_value_fields(values, gap);
    } else {
        lemma_strip_start_skip(line, 2);
        assert(line.skip(2) =~= body);
        lemma_split_single(body, ',');
        let f = seq![body];
        assert(numbers_in(f.drop_last()) =~= Seq::<i32>::empty());
    }
}

/// A timestamp, a signal strength, the marker and a payload of the expected
/// length, fed in this order to a parser in any state, give no frame for the
/// first three lines and for the fourth exactly the frame with those values;
/// the parser is idle again afterwards.
pub proof fn lemma_well_formed_sequence_gives_frame(
    st: ParserState,
    ts: u64,
    rssi: i32,
    values: Seq<i32>,
    gap: Seq<char>,
)
    requires
        values.len() == EXPECTED_CSI_VALUES,
        blank(gap),
    ensures
        ({
            let (s1, f1) = feed(st, timestamp_line(ts, gap));
            let (s2, f2) = feed(s1, signal_strength_line(rssi, gap));
            let (s3, f3) = feed(s2, marker_key());
            let (s4, f4) = feed(s3, payload_line(values, gap));
            &&& f1 is None
            &&& f2 is None
            &&& f3 is None
            &&& f4 == Some(Frame { timestamp: ts, rssi: rssi, values: values })
            &&& s4 == idle()
        }),
{
    lemma_timestamp_line(ts, gap);
    lemma_signal_strength_line(rssi, gap);
    lemma_marker_line(Seq::empty());
    lemma_payload_line(values, gap);
}

/// A bracketed line that no marker announced gives no frame and leaves the
/// parser as it was.
pub proof fn lemma_payload_without_marker(st: ParserState, line: Seq<char>)
    requires
        !st.armed,
        line_kind(trim(line)) == LineKind::Bracketed,
    ensures
        feed(st, line) == (st, None::<Frame>),
{
}

/// A payload of another length than the expected one gives no frame and
/// leaves the parser idle, so that the next well-formed sequence is read as
/// if nothing had come before.
pub proof fn lemma_wrong_length_resets(st: ParserState, line: Seq<char>)
    requires
        st.armed,
        line_kind(trim(line)) == LineKind::Bracketed,
        payload_values(trim(line)).len() != EXPECTED_CSI_VALUES,
    ensures
        feed(st, line) == (idle(), None::<Frame>),
{
}

} // verus!
