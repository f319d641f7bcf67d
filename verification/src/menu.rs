//! The interactive menu: what a key does to what was typed and chosen, and
//! what it asks of whoever drives the interface.

use vstd::prelude::*;
use crate::decimal::{is_digit, is_digit_char, render_nat, write_u64};
use crate::heatmap::rows_of;
use crate::saved_data::{
    csv_path, duration_of, parse_duration, strip_extension, table_path, without_extension,
    DurationError,
};
use crate::session::{
    no_port_status, recording_plan, started, RecordingPlan, RecordingPlanView, Session,
    SessionState, Step,
};
use crate::text::{chars_of, fields_of, string_of, trim, trimmed};
use crate::wifi_mode::WifiMode;

verus! {

/// How many controls the first pane holds: the two modes, the name of the
/// network, its password, the duration and the name of the recording.
pub const CONTROLS: usize = 6;

/// The subcarrier that is watched where nothing else was chosen.
pub const DEFAULT_SUBCARRIER: usize = 20;

/// A key, as far as the menu tells keys apart.
#[derive(Debug, Clone, Copy, PartialEq, Eq, Structural)]
pub enum Key {
    Esc,
    Enter,
    Tab,
    Backspace,
    Up,
    Down,
    Char(char),
    Other,
}

/// A key that was pressed, and whether the control key, and no other
/// modifier, was held with it.
#[derive(Debug, Clone, Copy, PartialEq, Eq, Structural)]
pub struct KeyPress {
    pub key: Key,
    pub control: bool,
}

/// The two panes that the keys move in.
#[derive(Debug, Clone, Copy, PartialEq, Eq, Structural)]
pub enum Pane {
    /// The controls of a recording.
    Controls,
    /// The recordings that are kept.
    Files,
}

/// What the menu asks of whoever drives the interface.
pub enum CommandView {
    Nothing,
    LoadFile(Seq<char>),
    StartRecording { plan: RecordingPlanView, secs: u64, port: Seq<char> },
}

/// What the menu asks of whoever drives the interface.
#[derive(Debug)]
pub enum Command {
    /// Nothing.
    Nothing,
    /// Read the table at this path, make its series and its heatmap, and
    /// hand back how that went.
    LoadFile(String),
    /// Start a worker that records from `port` for `secs` seconds.
    StartRecording { plan: RecordingPlan, secs: u64, port: String },
}

impl View for Command {
    type V = CommandView;

    open spec fn view(&self) -> CommandView {
        match self {
            Command::Nothing => CommandView::Nothing,
            Command::LoadFile(path) => CommandView::LoadFile(path@),
            Command::StartRecording { plan, secs, port } => CommandView::StartRecording {
                plan: plan@,
                secs: *secs,
                port: port@,
            },
        }
    }
}

/// What was typed and chosen.
pub struct MenuState {
    pub running: bool,
    pub filename: Seq<char>,
    pub duration_input: Seq<char>,
    pub status: Seq<char>,
    pub wifi_mode: WifiMode,
    pub ssid: Seq<char>,
    pub password: Seq<char>,
    pub pane: Pane,
    pub item: usize,
    pub detected_port: Option<Seq<char>>,
    pub esp_port: Option<Seq<char>>,
    pub subcarrier: usize,
}

/// What was typed and chosen.
#[derive(Debug)]
pub struct Menu {
    /// Whether the interface goes on.
    pub running: bool,
    /// The name of the recording, without directory or extension.
    pub filename: String,
    /// The duration as it was typed: digits only.
    pub duration_input: String,
    /// What the status line says.
    pub status: String,
    pub wifi_mode: WifiMode,
    pub ssid: String,
    pub password: String,
    /// The pane that the keys move in.
    pub pane: Pane,
    /// The item of the pane that is chosen, counted from 0.
    pub item: usize,
    /// The device that recordings are taken from, found when the interface
    /// came up.
    pub detected_port: Option<String>,
    /// The device that was found last.
    pub esp_port: Option<String>,
    /// The subcarrier that is watched.
    pub subcarrier: usize,
}

/// What an optional string holds.
pub open spec fn text_of(s: Option<String>) -> Option<Seq<char>> {
    match s {
        Some(s) => Some(s@),
        None => None,
    }
}

impl View for Menu {
    type V = MenuState;

    open spec fn view(&self) -> MenuState {
        MenuState {
            running: self.running,
            filename: self.filename@,
            duration_input: self.duration_input@,
            status: self.status@,
            wifi_mode: self.wifi_mode,
            ssid: self.ssid@,
            password: self.password@,
            pane: self.pane,
            item: self.item,
            detected_port: text_of(self.detected_port),
            esp_port: text_of(self.esp_port),
            subcarrier: self.subcarrier,
        }
    }
}

/// What the status line says when the interface comes up.
pub open spec fn welcome(port: Option<Seq<char>>) -> Seq<char> {
    match port {
        Some(p) => "Detected port: "@ + p
            + ". Type filename (without extension) and press Enter."@,
        None => "No ESP port detected. Type filename anyway, then duration."@,
    }
}

/// What the status line says of a recording without a name.
pub open spec fn no_filename_status() -> Seq<char> {
    "Filename cannot be empty."@
}

/// What the status line says once a recording has a name.
pub open spec fn choose_action_status() -> Seq<char> {
    "Press R to record new data, or O to open existing .csv file"@
}

/// What the status line says of a duration that cannot be used.
pub open spec fn duration_status(e: DurationError) -> Seq<char> {
    match e {
        DurationError::Empty => "Duration cannot be empty."@,
        DurationError::NotPositive => "Duration must be a positive integer."@,
    }
}

/// What the status line says of a series that was read from `path`.
pub open spec fn loaded_status(count: usize, path: Seq<char>, subcarrier: usize) -> Seq<char> {
    if count == 0 {
        "File "@ + path + " loaded but contained no valid data."@
    } else {
        "Loaded "@ + render_nat(count as nat) + " samples from "@ + path + " (subcarrier "@
            + render_nat(subcarrier as nat) + ")."@
    }
}

/// What the status line says of a table that could not be read.
pub open spec fn load_failed_status(path: Seq<char>, error: Seq<char>) -> Seq<char> {
    "Failed to load "@ + path + ": "@ + error
}

/// What the status line says of a heatmap that could not be made.
pub open spec fn heatmap_failed_status(path: Seq<char>, error: Seq<char>) -> Seq<char> {
    "Failed to load heatmap from "@ + path + ": "@ + error
}

/// The menu when the interface comes up.
pub open spec fn initial_menu(detected: Option<Seq<char>>, found: Option<Seq<char>>) -> MenuState {
    MenuState {
        running: false,
        filename: Seq::empty(),
        duration_input: Seq::empty(),
        status: welcome(detected),
        wifi_mode: WifiMode::Sniffer,
        ssid: Seq::empty(),
        password: Seq::empty(),
        pane: Pane::Controls,
        item: 0,
        detected_port: detected,
        esp_port: found,
        subcarrier: DEFAULT_SUBCARRIER,
    }
}

/// `field` without its last character.
pub open spec fn erased(field: Seq<char>) -> Seq<char> {
    if field.len() > 0 {
        field.drop_last()
    } else {
        field
    }
}

/// What a key does: to the menu, to the session, and what it asks for.
pub struct Effect<T> {
    pub menu: MenuState,
    pub session: SessionState<T>,
    pub command: CommandView,
}

/// The effect that changes the menu alone.
pub open spec fn only_menu<T>(m: MenuState, s: SessionState<T>) -> Effect<T> {
    Effect { menu: m, session: s, command: CommandView::Nothing }
}

/// Asks for the table of the recording that is named, where it has a name
/// but white space.
pub open spec fn load_named<T>(m: MenuState, s: SessionState<T>) -> Effect<T> {
    let name = trim(m.filename);
    if name.len() == 0 {
        only_menu(MenuState { status: no_filename_status(), ..m }, s)
    } else {
        Effect { menu: m, session: s, command: CommandView::LoadFile(table_path(name)) }
    }
}

/// Takes the name that was typed: with a name the interface goes on to the
/// choice of what to do, and the table of that name is asked for.
pub open spec fn confirm_filename<T>(m: MenuState, s: SessionState<T>) -> Effect<T> {
    if m.filename.len() == 0 {
        only_menu(MenuState { status: no_filename_status(), ..m }, s)
    } else {
        load_named(
            MenuState { status: choose_action_status(), ..m },
            SessionState { step: Step::ChooseAction, ..s },
        )
    }
}

/// Starts a recording of `secs` seconds where a device is known.
pub open spec fn begin_recording<T>(m: MenuState, s: SessionState<T>, secs: u64) -> Effect<T> {
    match m.detected_port {
        Some(port) => {
            let plan = recording_plan(m.filename, secs, port);
            Effect {
                menu: MenuState { status: plan.status, ..m },
                session: started(s),
                command: CommandView::StartRecording { plan: plan, secs: secs, port: port },
            }
        },
        None => only_menu(
            MenuState { status: no_port_status(), ..m },
            SessionState { step: Step::Finished, ..s },
        ),
    }
}

/// The duration that the enter key takes from what was typed: as
/// `duration_of`, but that only nothing at all counts as nothing typed.
pub open spec fn typed_duration(input: Seq<char>) -> Result<u64, DurationError> {
    if input.len() == 0 {
        Err(DurationError::Empty)
    } else {
        match duration_of(input) {
            Ok(secs) => Ok(secs),
            Err(_) => Err(DurationError::NotPositive),
        }
    }
}

/// Starts the recording for the duration that was read, or says why not.
pub open spec fn confirm_duration<T>(
    m: MenuState,
    s: SessionState<T>,
    duration: Result<u64, DurationError>,
) -> Effect<T> {
    match duration {
        Ok(secs) => begin_recording(m, s, secs),
        Err(e) => only_menu(MenuState { status: duration_status(e), ..m }, s),
    }
}

/// What a character does where a control that takes text is chosen.
pub open spec fn control_typed(m: MenuState, c: char) -> Option<MenuState> {
    if m.pane != Pane::Controls {
        None
    } else if m.item == 2 {
        Some(MenuState { ssid: m.ssid.push(c), ..m })
    } else if m.item == 3 {
        Some(MenuState { password: m.password.push(c), ..m })
    } else if m.item == 4 {
        Some(
            if is_digit(c) {
                MenuState { duration_input: m.duration_input.push(c), ..m }
            } else {
                m
            },
        )
    } else if m.item == 5 {
        Some(MenuState { filename: m.filename.push(c), ..m })
    } else {
        None
    }
}

/// What the backspace key does where a control that takes text is chosen.
pub open spec fn control_erased(m: MenuState) -> Option<MenuState> {
    if m.pane != Pane::Controls {
        None
    } else if m.item == 2 {
        Some(MenuState { ssid: erased(m.ssid), ..m })
    } else if m.item == 3 {
        Some(MenuState { password: erased(m.password), ..m })
    } else if m.item == 4 {
        Some(MenuState { duration_input: erased(m.duration_input), ..m })
    } else if m.item == 5 {
        Some(MenuState { filename: erased(m.filename), ..m })
    } else {
        None
    }
}

/// What a key does by the step that the interface is in, where neither a
/// control nor the panes took it.
pub open spec fn step_effect<T>(m: MenuState, s: SessionState<T>, key: Key) -> Effect<T> {
    match s.step {
        Step::EnterFilename => match key {
            Key::Char(c) => only_menu(MenuState { filename: m.filename.push(c), ..m }, s),
            Key::Backspace => only_menu(MenuState { filename: erased(m.filename), ..m }, s),
            Key::Enter => confirm_filename(m, s),
            _ => only_menu(m, s),
        },
        Step::ChooseAction | Step::EnterDuration => match key {
            Key::Char(c) => only_menu(
                if is_digit(c) {
                    MenuState { duration_input: m.duration_input.push(c), ..m }
                } else {
                    m
                },
                s,
            ),
            Key::Backspace => only_menu(
                MenuState { duration_input: erased(m.duration_input), ..m },
                s,
            ),
            Key::Enter => confirm_duration(m, s, typed_duration(m.duration_input)),
            _ => only_menu(m, s),
        },
        Step::Recording | Step::Finished => only_menu(m, s),
    }
}

/// What the space key does where no control takes it as text: in the
/// controls it chooses the mode; among the recordings it takes the name of
/// the chosen one, without its extension, and asks for its table.
pub open spec fn space_effect<T>(m: MenuState, s: SessionState<T>, files: Seq<Seq<char>>) -> Effect<
    T,
> {
    match m.pane {
        Pane::Controls => only_menu(
            if m.item == 0 {
                MenuState { wifi_mode: WifiMode::Sniffer, ..m }
            } else if m.item == 1 {
                MenuState { wifi_mode: WifiMode::Station, ..m }
            } else {
                m
            },
            s,
        ),
        Pane::Files => if m.item < files.len() {
            load_named(MenuState { filename: without_extension(files[m.item as int]), ..m }, s)
        } else {
            only_menu(m, s)
        },
    }
}

/// The item that the up key moves to: the one before, where there is one;
/// among the recordings only where any is kept.
pub open spec fn item_above(m: MenuState, files: nat) -> usize {
    if m.item > 0 && (m.pane == Pane::Controls || files > 0) {
        (m.item - 1) as usize
    } else {
        m.item
    }
}

/// The item that the down key moves to, among `count` items.
pub open spec fn item_below(m: MenuState, count: nat) -> usize {
    if m.item + 1 < count {
        (m.item + 1) as usize
    } else {
        m.item
    }
}

/// What a key does. Escape, or control with `c`, ends the interface;
/// control with `s` starts a recording from what the controls hold. Any
/// other key goes to the control that is chosen, where that takes text;
/// else it moves in the panes; else it is taken by the step that the
/// interface is in.
pub open spec fn key_effect<T>(
    m: MenuState,
    s: SessionState<T>,
    press: KeyPress,
    files: Seq<Seq<char>>,
) -> Effect<T> {
    if press.key == Key::Esc || (press.control && (press.key == Key::Char('c') || press.key
        == Key::Char('C'))) {
        only_menu(MenuState { running: false, ..m }, s)
    } else if press.control && (press.key == Key::Char('s') || press.key == Key::Char('S')) {
        if trim(m.filename).len() == 0 {
            only_menu(MenuState { status: no_filename_status(), ..m }, s)
        } else {
            confirm_duration(m, s, duration_of(m.duration_input))
        }
    } else {
        match press.key {
            Key::Char(c) => match control_typed(m, c) {
                Some(typed) => only_menu(typed, s),
                None => if c == ' ' {
                    space_effect(m, s, files)
                } else {
                    step_effect(m, s, press.key)
                },
            },
            Key::Backspace => match control_erased(m) {
                Some(shorter) => only_menu(shorter, s),
                None => step_effect(m, s, press.key),
            },
            Key::Enter => if m.pane == Pane::Controls && m.item == 5 {
                confirm_filename(m, s)
            } else {
                step_effect(m, s, press.key)
            },
            Key::Tab => only_menu(
                MenuState {
                    pane: if m.pane == Pane::Controls {
                        Pane::Files
                    } else {
                        Pane::Controls
                    },
                    item: 0,
                    ..m
                },
                s,
            ),
            Key::Up => only_menu(MenuState { item: item_above(m, files.len()), ..m }, s),
            Key::Down => only_menu(
                MenuState {
                    item: item_below(
                        m,
                        if m.pane == Pane::Controls {
                            CONTROLS as nat
                        } else {
                            files.len()
                        },
                    ),
                    ..m
                },
                s,
            ),
            _ => step_effect(m, s, press.key),
        }
    }
}

/// What the result of reading a table does: a series that was read
/// finishes the interface and is counted on the status line; a heatmap
/// with rows is shown; either failure is told on the status line, that of
/// the heatmap last.
pub open spec fn file_effect<T>(
    m: MenuState,
    s: SessionState<T>,
    path: Seq<char>,
    series: Result<usize, Seq<char>>,
    heatmap: Result<Seq<Seq<u8>>, Seq<char>>,
) -> (MenuState, SessionState<T>) {
    let (m1, s1) = match series {
        Ok(count) => (
            MenuState { status: loaded_status(count, path, m.subcarrier), ..m },
            SessionState { step: Step::Finished, ..s },
        ),
        Err(e) => (MenuState { status: load_failed_status(path, e), ..m }, s),
    };
    match heatmap {
        Ok(grid) => if grid.len() > 0 {
            (m1, SessionState { heatmap: grid, ..s1 })
        } else {
            (m1, s1)
        },
        Err(e) => (MenuState { status: heatmap_failed_status(path, e), ..m1 }, s1),
    }
}

/// What a look at the devices does: the device that was found is kept, and
/// the status line tells where the radio came or went.
pub open spec fn port_effect(m: MenuState, found: Option<Seq<char>>) -> MenuState {
    MenuState {
        esp_port: found,
        status: match (m.esp_port, found) {
            (None, Some(p)) => "ESP connected on "@ + p,
            (Some(_), None) => "ESP disconnect"@,
            _ => m.status,
        },
        ..m
    }
}

/// The words of `text`, as a string.
fn words(text: &str) -> (out: String)
    ensures
        out@ == text@,
{
    let mut out = String::new();
    out.append(text);
    out
}

/// Reads the duration that the enter key takes from what was typed.
fn read_typed_duration(input: &str) -> (out: Result<u64, DurationError>)
    ensures
        out == typed_duration(input@),
{
    if input.is_empty() {
        return Err(DurationError::Empty);
    }
    match parse_duration(input) {
        Ok(secs) => Ok(secs),
        Err(_) => Err(DurationError::NotPositive),
    }
}

impl Menu {
    /// The menu when the interface comes up, with the device that
    /// recordings will be taken from and the device that was found last.
    pub fn new(detected_port: Option<String>, esp_port: Option<String>) -> (out: Self)
        ensures
            out@ == initial_menu(text_of(detected_port), text_of(esp_port)),
    {
        let mut status = String::new();
        match &detected_port {
            Some(p) => {
                status.append("Detected port: ");
                status.append(p.as_str());
                status.append(". Type filename (without extension) and press Enter.");
            },
            None => {
                status.append("No ESP port detected. Type filename anyway, then duration.");
            },
        }
        Menu {
            running: false,
            filename: String::new(),
            duration_input: String::new(),
            status,
            wifi_mode: WifiMode::Sniffer,
            ssid: String::new(),
            password: String::new(),
            pane: Pane::Controls,
            item: 0,
            detected_port,
            esp_port,
            subcarrier: DEFAULT_SUBCARRIER,
        }
    }

    /// Ends the interface.
    pub fn quit(&mut self)
        ensures
            final(self)@ == (MenuState { running: false, ..old(self)@ }),
    {
        self.running = false;
    }

    /// Asks for the table of the recording that is named; where the name is
    /// nothing but white space, the status line says so and nothing is asked
    /// for.
    pub fn load_file_for_plot<T>(&mut self, session: &Session<T>) -> (out: Command)
        ensures
            final(self)@ == load_named(old(self)@, session@).menu,
            out@ == load_named(old(self)@, session@).command,
            session@ == load_named(old(self)@, session@).session,
    {
        let chars = chars_of(self.filename.as_str());
        let name = trimmed(chars.as_slice());
        if name.len() == 0 {
            self.status = words("Filename cannot be empty.");
            Command::Nothing
        } else {
            let base = string_of(name);
            Command::LoadFile(csv_path(base.as_str()))
        }
    }

    /// Takes the name that was typed.
    fn confirm_filename<T>(&mut self, session: &mut Session<T>) -> (out: Command)
        ensures
            final(session).wf() == old(session).wf(),
            final(self)@ == confirm_filename(old(self)@, old(session)@).menu,
            final(session)@ == confirm_filename(old(self)@, old(session)@).session,
            out@ == confirm_filename(old(self)@, old(session)@).command,
    {
        if self.filename.as_str().is_empty() {
            self.status = words("Filename cannot be empty.");
            Command::Nothing
        } else {
            session.set_step(Step::ChooseAction);
            self.status = words("Press R to record new data, or O to open existing .csv file");
            self.load_file_for_plot(session)
        }
    }

    /// Starts the recording for the duration that was read, or says why
    /// not.
    fn confirm_duration<T>(
        &mut self,
        session: &mut Session<T>,
        duration: Result<u64, DurationError>,
    ) -> (out: Command)
        requires
            old(session).wf(),
        ensures
            final(session).wf(),
            final(self)@ == confirm_duration(old(self)@, old(session)@, duration).menu,
            final(session)@ == confirm_duration(old(self)@, old(session)@, duration).session,
            out@ == confirm_duration(old(self)@, old(session)@, duration).command,
    {
        let secs = match duration {
            Ok(secs) => secs,
            Err(e) => {
                self.status = e.message();
                return Command::Nothing;
            },
        };
        let started = match &self.detected_port {
            Some(port) => session.start_recording(
                Some(port.as_str()),
                self.filename.as_str(),
                secs,
            ),
            None => session.start_recording(None, self.filename.as_str(), secs),
        };
        match started {
            Ok(plan) => {
                let port = match &self.detected_port {
                    Some(port) => port.clone(),
                    None => String::new(),
                };
                self.status = plan.status.clone();
                Command::StartRecording { plan, secs, port }
            },
            Err(status) => {
                self.status = status;
                Command::Nothing
            },
        }
    }

    /// Takes a key by the step that the interface is in.
    fn step_key<T>(&mut self, session: &mut Session<T>, key: Key) -> (out: Command)
        requires
            old(session).wf(),
        ensures
            final(session).wf(),
            final(self)@ == step_effect(old(self)@, old(session)@, key).menu,
            final(session)@ == step_effect(old(self)@, old(session)@, key).session,
            out@ == step_effect(old(self)@, old(session)@, key).command,
    {
        match session.step() {
            Step::EnterFilename => match key {
                Key::Char(c) => {
                    self.filename.push(c);
                    Command::Nothing
                },
                Key::Backspace => {
                    let _ = self.filename.pop();
                    Command::Nothing
                },
                Key::Enter => self.confirm_filename(session),
                _ => Command::Nothing,
            },
            Step::ChooseAction | Step::EnterDuration => match key {
                Key::Char(c) => {
                    if is_digit_char(c) {
                        self.duration_input.push(c);
                    }
                    Command::Nothing
                },
                Key::Backspace => {
                    let _ = self.duration_input.pop();
                    Command::Nothing
                },
                Key::Enter => {
                    let duration = read_typed_duration(self.duration_input.as_str());
                    self.confirm_duration(session, duration)
                },
                _ => Command::Nothing,
            },
            Step::Recording | Step::Finished => Command::Nothing,
        }
    }

    /// Takes a character where a control that takes text is chosen, and
    /// says whether one was.
    fn type_in_control(&mut self, c: char) -> (taken: bool)
        ensures
            match control_typed(old(self)@, c) {
                Some(typed) => taken && final(self)@ == typed,
                None => !taken && final(self)@ == old(self)@,
            },
    {
        match self.pane {
            Pane::Controls => {},
            Pane::Files => {
                return false;
            },
        }
        if self.item == 2 {
            self.ssid.push(c);
            true
        } else if self.item == 3 {
            self.password.push(c);
            true
        } else if self.item == 4 {
            if is_digit_char(c) {
                self.duration_input.push(c);
            }
            true
        } else if self.item == 5 {
            self.filename.push(c);
            true
        } else {
            false
        }
    }

    /// Takes the backspace key where a control that takes text is chosen,
    /// and says whether one was.
    fn erase_in_control(&mut self) -> (taken: bool)
        ensures
            match control_erased(old(self)@) {
                Some(shorter) => taken && final(self)@ == shorter,
                None => !taken && final(self)@ == old(self)@,
            },
    {
        match self.pane {
            Pane::Controls => {},
            Pane::Files => {
                return false;
            },
        }
        if self.item == 2 {
            let _ = self.ssid.pop();
            true
        } else if self.item == 3 {
            let _ = self.password.pop();
            true
        } else if self.item == 4 {
            let _ = self.duration_input.pop();
            true
        } else if self.item == 5 {
            let _ = self.filename.pop();
            true
        } else {
            false
        }
    }

    /// Takes the space key where no control takes it as text.
    fn space_key<T>(&mut self, session: &Session<T>, files: &Vec<String>) -> (out: Command)
        ensures
            final(self)@ == space_effect(old(self)@, session@, fields_of(files@)).menu,
            session@ == space_effect(old(self)@, session@, fields_of(files@)).session,
            out@ == space_effect(old(self)@, session@, fields_of(files@)).command,
    {
        match self.pane {
            Pane::Controls => {
                if self.item == 0 {
                    self.wifi_mode = WifiMode::Sniffer;
                } else if self.item == 1 {
                    self.wifi_mode = WifiMode::Station;
                }
                Command::Nothing
            },
            Pane::Files => {
                if self.item < files.len() {
                    self.filename = strip_extension(files[self.item].as_str());
                    self.load_file_for_plot(session)
                } else {
                    Command::Nothing
                }
            },
        }
    }

    /// Takes a key: changes what was typed and chosen, moves the session
    /// where the key starts a recording or names one, and says what is to be
    /// done about it. `files` are the recordings that are kept, in the
    /// order in which they are listed.
    pub fn on_key<T>(&mut self, session: &mut Session<T>, press: KeyPress, files: &Vec<String>) -> (out:
        Command)
        requires
            old(session).wf(),
        ensures
            final(session).wf(),
            final(self)@ == key_effect(old(self)@, old(session)@, press, fields_of(files@)).menu,
            final(session)@ == key_effect(
                old(self)@,
                old(session)@,
                press,
                fields_of(files@),
            ).session,
            out@ == key_effect(old(self)@, old(session)@, press, fields_of(files@)).command,
    {
        let control = press.control;
        match press.key {
            Key::Esc => {
                self.quit();
                return Command::Nothing;
            },
            Key::Char(c) => {
                if control && (c == 'c' || c == 'C') {
                    self.quit();
                    return Command::Nothing;
                }
                if control && (c == 's' || c == 'S') {
                    let chars = chars_of(self.filename.as_str());
                    if trimmed(chars.as_slice()).len() == 0 {
                        self.status = words("Filename cannot be empty.");
                        return Command::Nothing;
                    }
                    let duration = parse_duration(self.duration_input.as_str());
                    return self.confirm_duration(session, duration);
                }
                if self.type_in_control(c) {
                    Command::Nothing
                } else if c == ' ' {
                    self.space_key(session, files)
                } else {
                    self.step_key(session, press.key)
                }
            },
            Key::Backspace => {
                if self.erase_in_control() {
                    Command::Nothing
                } else {
                    self.step_key(session, press.key)
                }
            },
            Key::Enter => {
                let on_name = match self.pane {
                    Pane::Controls => self.item == 5,
                    Pane::Files => false,
                };
                if on_name {
                    self.confirm_filename(session)
                } else {
                    self.step_key(session, press.key)
                }
            },
            Key::Tab => {
                self.pane = match self.pane {
                    Pane::Controls => Pane::Files,
                    Pane::Files => Pane::Controls,
                };
                self.item = 0;
                Command::Nothing
            },
            Key::Up => {
                let may = match self.pane {
                    Pane::Controls => true,
                    Pane::Files => files.len() > 0,
                };
                if self.item > 0 && may {
                    self.item = self.item - 1;
                }
                Command::Nothing
            },
            Key::Down => {
                let count = match self.pane {
                    Pane::Controls => CONTROLS,
                    Pane::Files => files.len(),
                };
                if count > 0 && self.item < count - 1 {
                    self.item = self.item + 1;
                }
                Command::Nothing
            },
            Key::Other => self.step_key(session, press.key),
        }
    }

    /// Takes the result of reading the table at `path`: how many samples
    /// its series has, and its heatmap, or why either could not be had.
    pub fn on_file_loaded<T>(
        &mut self,
        session: &mut Session<T>,
        path: &str,
        series: Result<usize, String>,
        heatmap: Result<Vec<Vec<u8>>, String>,
    )
        ensures
            final(session).wf() == old(session).wf(),
            (final(self)@, final(session)@) == file_effect(
                old(self)@,
                old(session)@,
                path@,
                match series {
                    Ok(count) => Ok(count),
                    Err(e) => Err(e@),
                },
                match heatmap {
                    Ok(grid) => Ok(rows_of(grid@)),
                    Err(e) => Err(e@),
                },
            ),
    {
        match series {
            Ok(count) => {
                let mut status = String::new();
                if count == 0 {
                    status.append("File ");
                    status.append(path);
                    status.append(" loaded but contained no valid data.");
                } else {
                    status.append("Loaded ");
                    write_u64(&mut status, count as u64);
                    status.append(" samples from ");
                    status.append(path);
                    status.append(" (subcarrier ");
                    write_u64(&mut status, self.subcarrier as u64);
                    status.append(").");
                }
                self.status = status;
                session.set_step(Step::Finished);
            },
            Err(e) => {
                let mut status = String::new();
                status.append("Failed to load ");
                status.append(path);
                status.append(": ");
                status.append(e.as_str());
                self.status = status;
            },
        }
        match heatmap {
            Ok(grid) => {
                if grid.len() > 0 {
                    session.show_heatmap(grid);
                }
            },
            Err(e) => {
                let mut status = String::new();
                status.append("Failed to load heatmap from ");
                status.append(path);
                status.append(": ");
                status.append(e.as_str());
                self.status = status;
            },
        }
    }

    /// Takes the device that a look at the devices found.
    pub fn refresh_esp(&mut self, found: Option<String>)
        ensures
            final(self)@ == port_effect(old(self)@, text_of(found)),
    {
        match (&self.esp_port, &found) {
            (None, Some(p)) => {
                let mut status = String::new();
                status.append("ESP connected on ");
                status.append(p.as_str());
                self.status = status;
            },
            (Some(_), None) => {
                self.status = words("ESP disconnect");
            },
            _ => {},
        }
        self.esp_port = found;
    }
}

} // verus!
