use esp_csi_tui_rs::esp_port::send_cli_command;
use esp_csi_tui_rs::wifi_mode::{apply_wifi_config, escap_wifi_token, WifiMode};

#[test]
fn spaces_become_underscores() {
    assert_eq!(escap_wifi_token("my home net"), "my_home_net");
    assert_eq!(escap_wifi_token("  a  "), "__a__");
    assert_eq!(escap_wifi_token(""), "");
    assert_eq!(escap_wifi_token("no-space_here"), "no-space_here");
    // Only the space itself is replaced, no other white space.
    assert_eq!(escap_wifi_token("a\tb\u{a0}c d"), "a\tb\u{a0}c_d");
}

#[test]
fn a_command_ends_with_carriage_return_and_line_feed() {
    let mut out = String::new();
    send_cli_command(&mut out, "start --duration=5");
    assert_eq!(out, "start --duration=5\r\n");
    send_cli_command(&mut out, "");
    assert_eq!(out, "start --duration=5\r\n\r\n");
}

#[test]
fn sniffer_takes_one_command() {
    let mut out = String::from("> ");
    apply_wifi_config(&mut out, WifiMode::Sniffer, "ignored name", "ignored");
    assert_eq!(out, "> set-wifi --mode=sniffer\r\n");
}

#[test]
fn station_takes_mode_name_password_and_switch() {
    let mut out = String::new();
    apply_wifi_config(&mut out, WifiMode::Station, "Cafe Wifi", "top secret 1");
    assert_eq!(
        out,
        "set-wifi --mode station\r\n\
         set-wifi --sta-ssid=Cafe_Wifi\r\n\
         set-wifi --sta-password=top_secret_1\r\n\
         set-csi --disable-htltf --disable-stbc-htltf\r\n"
    );
}
