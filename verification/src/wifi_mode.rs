//! The two ways in which the radio can listen, and the commands that set it
//! up for each.

use vstd::prelude::*;
use crate::esp_port::{command_text, send_cli_command};
use crate::text::chars_of;

verus! {

/// How the radio listens.
#[derive(Debug, Clone, Copy)]
pub enum WifiMode {
    /// Passive capture of the traffic that is in the air.
    Sniffer,
    /// Association with an access point.
    Station,
}

/// `s` with every space replaced by an underscore, so that it is one token
/// of a command.
pub open spec fn escaped(s: Seq<char>) -> Seq<char> {
    Seq::new(
        s.len(),
        |i: int|
            if s[i] == ' ' {
                '_'
            } else {
                s[i]
            },
    )
}

/// The commands that set the radio up, each with its line end: for the
/// sniffer the mode alone; for a station the mode, the name of the network,
/// its password, and the switch that turns off the training fields that a
/// station cannot report.
pub open spec fn wifi_config_text(mode: WifiMode, ssid: Seq<char>, password: Seq<char>) -> Seq<char> {
    match mode {
        WifiMode::Sniffer => command_text("set-wifi --mode=sniffer"@),
        WifiMode::Station => command_text("set-wifi --mode station"@) + command_text(
            "set-wifi --sta-ssid="@ + escaped(ssid),
        ) + command_text("set-wifi --sta-password="@ + escaped(password)) + command_text(
            "set-csi --disable-htltf --disable-stbc-htltf"@,
        ),
    }
}

/// Makes `s` one token of a command: every space becomes an underscore.
pub fn escap_wifi_token(s: &str) -> (out: String)
    ensures
        out@ == escaped(s@),
{
    let chars = chars_of(s);
    let mut out = String::new();
    let mut i: usize = 0;
    while i < chars.len()
        invariant
            i <= chars.len(),
            chars@ == s@,
            out@ == escaped(s@).take(i as int),
        decreases chars.len() - i,
    {
        let c = chars[i];
        if c == ' ' {
            out.push('_');
        } else {
            out.push(c);
        }
        i = i + 1;
    }
    out
}

/// Appends to `out`, the text that goes out to the radio, the commands that
/// set it up for `mode`.
pub fn apply_wifi_config(out: &mut String, mode: WifiMode, ssid: &str, password: &str)
    ensures
        final(out)@ == old(out)@ + wifi_config_text(mode, ssid@, password@),
{
    match mode {
        WifiMode::Sniffer => {
            send_cli_command(out, "set-wifi --mode=sniffer");
        },
        WifiMode::Station => {
            let ssid_escaped = escap_wifi_token(ssid);
            let pass_escaped = escap_wifi_token(password);
            send_cli_command(out, "set-wifi --mode station");
            let mut ssid_cmd = String::new();
            ssid_cmd.append("set-wifi --sta-ssid=");
            ssid_cmd.append(ssid_escaped.as_str());
            send_cli_command(out, ssid_cmd.as_str());
            let mut pass_cmd = String::new();
            pass_cmd.append("set-wifi --sta-password=");
            pass_cmd.append(pass_escaped.as_str());
            send_cli_command(out, pass_cmd.as_str());
            send_cli_command(out, "set-csi --disable-htltf --disable-stbc-htltf");
        },
    }
}

} // verus!
