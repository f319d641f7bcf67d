use esp_csi_tui_rs::menu::{Command, Key, KeyPress, Menu, Pane, CONTROLS, DEFAULT_SUBCARRIER};
use esp_csi_tui_rs::session::{Session, Step};
use esp_csi_tui_rs::wifi_mode::WifiMode;

fn plain(key: Key) -> KeyPress {
    KeyPress { key, control: false }
}

fn ctrl(c: char) -> KeyPress {
    KeyPress { key: Key::Char(c), control: true }
}

fn fresh(port: Option<&str>) -> (Menu, Session<u8>) {
    let port = port.map(|p| p.to_string());
    (Menu::new(port.clone(), port), Session::new())
}

fn type_text(menu: &mut Menu, session: &mut Session<u8>, text: &str) {
    for c in text.chars() {
        let command = menu.on_key(session, plain(Key::Char(c)), &Vec::new());
        assert!(matches!(command, Command::Nothing));
    }
}

fn go_to_item(menu: &mut Menu, session: &mut Session<u8>, item: usize) {
    while menu.item < item {
        let _ = menu.on_key(session, plain(Key::Down), &Vec::new());
    }
    while menu.item > item {
        let _ = menu.on_key(session, plain(Key::Up), &Vec::new());
    }
}

#[test]
fn menu_comes_up_with_a_word_on_the_device() {
    let (menu, _) = fresh(Some("/dev/ttyUSB0"));
    assert_eq!(
        menu.status,
        "Detected port: /dev/ttyUSB0. Type filename (without extension) and press Enter."
    );
    assert!(!menu.running);
    assert_eq!(menu.subcarrier, DEFAULT_SUBCARRIER);
    assert_eq!(menu.subcarrier, 20);
    assert!(matches!(menu.wifi_mode, WifiMode::Sniffer));
    assert_eq!(menu.pane, Pane::Controls);
    assert_eq!(menu.item, 0);
    let (none, _) = fresh(None);
    assert_eq!(none.status, "No ESP port detected. Type filename anyway, then duration.");
}

#[test]
fn escape_and_control_c_end_the_interface() {
    for press in [plain(Key::Esc), ctrl('c'), ctrl('C'), KeyPress { key: Key::Esc, control: true }] {
        let (mut menu, mut session) = fresh(None);
        menu.running = true;
        let _ = menu.on_key(&mut session, press, &Vec::new());
        assert!(!menu.running);
    }
    let (mut menu, mut session) = fresh(None);
    menu.running = true;
    let _ = menu.on_key(&mut session, plain(Key::Char('c')), &Vec::new());
    assert!(menu.running);
    assert_eq!(menu.filename, "c");
}

#[test]
fn typing_at_first_names_the_recording() {
    let (mut menu, mut session) = fresh(None);
    type_text(&mut menu, &mut session, "walk1");
    assert_eq!(menu.filename, "walk1");
    let _ = menu.on_key(&mut session, plain(Key::Backspace), &Vec::new());
    assert_eq!(menu.filename, "walk");
    for _ in 0..10 {
        let _ = menu.on_key(&mut session, plain(Key::Backspace), &Vec::new());
    }
    assert_eq!(menu.filename, "");
}

#[test]
fn enter_on_a_name_asks_for_its_table() {
    let (mut menu, mut session) = fresh(None);
    type_text(&mut menu, &mut session, "walk");
    match menu.on_key(&mut session, plain(Key::Enter), &Vec::new()) {
        Command::LoadFile(path) => assert_eq!(path, "saved_data/walk.csv"),
        other => panic!("unexpected {:?}", other),
    }
    assert_eq!(session.step(), Step::ChooseAction);
    assert_eq!(menu.status, "Press R to record new data, or O to open existing .csv file");
}

#[test]
fn enter_without_a_name_is_refused() {
    let (mut menu, mut session) = fresh(None);
    assert!(matches!(menu.on_key(&mut session, plain(Key::Enter), &Vec::new()), Command::Nothing));
    assert_eq!(menu.status, "Filename cannot be empty.");
    assert_eq!(session.step(), Step::EnterFilename);
    // A name of white space counts as a name for the step, not for the table.
    menu.filename = String::from("  ");
    assert!(matches!(menu.on_key(&mut session, plain(Key::Enter), &Vec::new()), Command::Nothing));
    assert_eq!(menu.status, "Filename cannot be empty.");
    assert_eq!(session.step(), Step::ChooseAction);
}

#[test]
fn controls_take_text_where_they_hold_text() {
    let (mut menu, mut session) = fresh(None);
    go_to_item(&mut menu, &mut session, 2);
    type_text(&mut menu, &mut session, "my net");
    go_to_item(&mut menu, &mut session, 3);
    type_text(&mut menu, &mut session, "pass word");
    go_to_item(&mut menu, &mut session, 4);
    type_text(&mut menu, &mut session, "1a2 b3");
    go_to_item(&mut menu, &mut session, 5);
    type_text(&mut menu, &mut session, "walk 2");
    assert_eq!(menu.ssid, "my net");
    assert_eq!(menu.password, "pass word");
    assert_eq!(menu.duration_input, "123");
    assert_eq!(menu.filename, "walk 2");
    go_to_item(&mut menu, &mut session, 3);
    let _ = menu.on_key(&mut session, plain(Key::Backspace), &Vec::new());
    assert_eq!(menu.password, "pass wor");
    go_to_item(&mut menu, &mut session, 4);
    let _ = menu.on_key(&mut session, plain(Key::Backspace), &Vec::new());
    assert_eq!(menu.duration_input, "12");
    assert_eq!(session.step(), Step::EnterFilename);
}

#[test]
fn space_chooses_the_mode() {
    let (mut menu, mut session) = fresh(None);
    go_to_item(&mut menu, &mut session, 1);
    let _ = menu.on_key(&mut session, plain(Key::Char(' ')), &Vec::new());
    assert!(matches!(menu.wifi_mode, WifiMode::Station));
    go_to_item(&mut menu, &mut session, 0);
    let _ = menu.on_key(&mut session, plain(Key::Char(' ')), &Vec::new());
    assert!(matches!(menu.wifi_mode, WifiMode::Sniffer));
    assert_eq!(menu.filename, "");
}

#[test]
fn down_stops_at_the_last_control_and_up_at_the_first() {
    let (mut menu, mut session) = fresh(None);
    for _ in 0..20 {
        let _ = menu.on_key(&mut session, plain(Key::Down), &Vec::new());
    }
    assert_eq!(menu.item, CONTROLS - 1);
    for _ in 0..20 {
        let _ = menu.on_key(&mut session, plain(Key::Up), &Vec::new());
    }
    assert_eq!(menu.item, 0);
}

#[test]
fn tab_changes_the_pane_and_goes_to_its_first_item() {
    let (mut menu, mut session) = fresh(None);
    let files = vec![String::from("a.csv"), String::from("b.rrd"), String::from("c.csv")];
    go_to_item(&mut menu, &mut session, 3);
    let _ = menu.on_key(&mut session, plain(Key::Tab), &files);
    assert_eq!(menu.pane, Pane::Files);
    assert_eq!(menu.item, 0);
    for _ in 0..10 {
        let _ = menu.on_key(&mut session, plain(Key::Down), &files);
    }
    assert_eq!(menu.item, 2);
    let _ = menu.on_key(&mut session, plain(Key::Up), &files);
    assert_eq!(menu.item, 1);
    // Without recordings nothing moves.
    let _ = menu.on_key(&mut session, plain(Key::Up), &Vec::new());
    let _ = menu.on_key(&mut session, plain(Key::Down), &Vec::new());
    assert_eq!(menu.item, 1);
    let _ = menu.on_key(&mut session, plain(Key::Tab), &files);
    assert_eq!(menu.pane, Pane::Controls);
    assert_eq!(menu.item, 0);
}

#[test]
fn space_on_a_recording_takes_its_name_and_asks_for_its_table() {
    let (mut menu, mut session) = fresh(None);
    let files = vec![String::from("a.csv"), String::from("long.walk.rrd")];
    let _ = menu.on_key(&mut session, plain(Key::Tab), &files);
    let _ = menu.on_key(&mut session, plain(Key::Down), &files);
    match menu.on_key(&mut session, plain(Key::Char(' ')), &files) {
        Command::LoadFile(path) => assert_eq!(path, "saved_data/long.walk.csv"),
        other => panic!("unexpected {:?}", other),
    }
    assert_eq!(menu.filename, "long.walk");
    // Beyond the list nothing is taken.
    assert!(matches!(
        menu.on_key(&mut session, plain(Key::Char(' ')), &files[..1].to_vec()),
        Command::Nothing
    ));
    assert_eq!(menu.filename, "long.walk");
}

#[test]
fn control_s_starts_a_recording_from_the_controls() {
    let (mut menu, mut session) = fresh(Some("/dev/ttyACM0"));
    menu.filename = String::from("walk");
    menu.duration_input = String::from("15");
    match menu.on_key(&mut session, ctrl('s'), &Vec::new()) {
        Command::StartRecording { plan, secs, port } => {
            assert_eq!(secs, 15);
            assert_eq!(port, "/dev/ttyACM0");
            assert_eq!(plan.csv_filename, "saved_data/walk.csv");
            assert_eq!(plan.rrd_filename, "saved_data/walk.rrd");
            assert_eq!(plan.status, menu.status);
        },
        other => panic!("unexpected {:?}", other),
    }
    assert_eq!(
        menu.status,
        "Recording to saved_data/walk.csv and saved_data/walk.rrd for 15s on port /dev/ttyACM0..."
    );
    assert_eq!(session.step(), Step::Recording);
    assert!(session.worker_open());
}

#[test]
fn control_s_says_what_is_missing() {
    let (mut menu, mut session) = fresh(Some("p"));
    assert!(matches!(menu.on_key(&mut session, ctrl('S'), &Vec::new()), Command::Nothing));
    assert_eq!(menu.status, "Filename cannot be empty.");
    menu.filename = String::from("walk");
    assert!(matches!(menu.on_key(&mut session, ctrl('S'), &Vec::new()), Command::Nothing));
    assert_eq!(menu.status, "Duration cannot be empty.");
    menu.duration_input = String::from("0");
    assert!(matches!(menu.on_key(&mut session, ctrl('s'), &Vec::new()), Command::Nothing));
    assert_eq!(menu.status, "Duration must be a positive integer.");
    assert_eq!(session.step(), Step::EnterFilename);
    assert!(!session.worker_open());
}

#[test]
fn without_a_device_nothing_starts() {
    let (mut menu, mut session) = fresh(None);
    menu.filename = String::from("walk");
    menu.duration_input = String::from("5");
    assert!(matches!(menu.on_key(&mut session, ctrl('s'), &Vec::new()), Command::Nothing));
    assert_eq!(menu.status, "No serial port detected; cannot start recording.");
    assert_eq!(session.step(), Step::Finished);
}

#[test]
fn after_the_name_digits_make_the_duration_and_enter_starts() {
    let (mut menu, mut session) = fresh(Some("COM3"));
    type_text(&mut menu, &mut session, "walk");
    let _ = menu.on_key(&mut session, plain(Key::Enter), &Vec::new());
    assert_eq!(session.step(), Step::ChooseAction);
    assert!(matches!(menu.on_key(&mut session, plain(Key::Enter), &Vec::new()), Command::Nothing));
    assert_eq!(menu.status, "Duration cannot be empty.");
    type_text(&mut menu, &mut session, "x7y5");
    assert_eq!(menu.duration_input, "75");
    let _ = menu.on_key(&mut session, plain(Key::Backspace), &Vec::new());
    assert_eq!(menu.duration_input, "7");
    assert_eq!(menu.filename, "walk");
    match menu.on_key(&mut session, plain(Key::Enter), &Vec::new()) {
        Command::StartRecording { secs, .. } => assert_eq!(secs, 7),
        other => panic!("unexpected {:?}", other),
    }
    assert_eq!(session.step(), Step::Recording);
    // While a recording runs, keys that no control takes do nothing.
    type_text(&mut menu, &mut session, "9z");
    let _ = menu.on_key(&mut session, plain(Key::Other), &Vec::new());
    assert_eq!(menu.duration_input, "7");
    assert_eq!(menu.filename, "walk");
}

#[test]
fn a_loaded_table_is_told_on_the_status_line() {
    let (mut menu, mut session) = fresh(None);
    menu.on_file_loaded(&mut session, "saved_data/w.csv", Ok(42), Ok(vec![vec![1, 2]]));
    assert_eq!(menu.status, "Loaded 42 samples from saved_data/w.csv (subcarrier 20).");
    assert_eq!(session.step(), Step::Finished);
    assert_eq!(session.heatmap().values, vec![vec![1, 2]]);

    menu.on_file_loaded(&mut session, "saved_data/w.csv", Ok(0), Ok(Vec::new()));
    assert_eq!(menu.status, "File saved_data/w.csv loaded but contained no valid data.");
    // A heatmap without rows leaves the one that is shown.
    assert_eq!(session.heatmap().values, vec![vec![1, 2]]);
}

#[test]
fn a_table_that_cannot_be_read_is_told_on_the_status_line() {
    let (mut menu, mut session) = fresh(None);
    menu.on_file_loaded(
        &mut session,
        "saved_data/w.csv",
        Err(String::from("CSV file is empty")),
        Ok(Vec::new()),
    );
    assert_eq!(menu.status, "Failed to load saved_data/w.csv: CSV file is empty");
    assert_eq!(session.step(), Step::EnterFilename);
    menu.on_file_loaded(
        &mut session,
        "saved_data/w.csv",
        Ok(3),
        Err(String::from("bad bytes")),
    );
    assert_eq!(menu.status, "Failed to load heatmap from saved_data/w.csv: bad bytes");
    assert_eq!(session.step(), Step::Finished);
}

#[test]
fn the_radio_coming_and_going_is_told_on_the_status_line() {
    let (mut menu, _) = fresh(None);
    menu.refresh_esp(None);
    assert_eq!(menu.status, "No ESP port detected. Type filename anyway, then duration.");
    menu.refresh_esp(Some(String::from("/dev/ttyUSB1")));
    assert_eq!(menu.status, "ESP connected on /dev/ttyUSB1");
    assert_eq!(menu.esp_port.as_deref(), Some("/dev/ttyUSB1"));
    menu.status = String::from("kept");
    menu.refresh_esp(Some(String::from("/dev/ttyUSB2")));
    assert_eq!(menu.status, "kept");
    assert_eq!(menu.esp_port.as_deref(), Some("/dev/ttyUSB2"));
    menu.refresh_esp(None);
    assert_eq!(menu.status, "ESP disconnect");
    assert_eq!(menu.detected_port, None);
    menu.quit();
    assert!(!menu.running);
}
