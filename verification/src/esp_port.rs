//! Which serial device the radio is, and how a command goes out to its
//! console.

use vstd::prelude::*;
use crate::text::{chars_of, contains_text, holds};

verus! {

/// What ends every command on the wire: a carriage return and a line feed.
pub open spec fn line_end() -> Seq<char> {
    seq!['\r', '\n']
}

/// The text that sends the command `cmd`.
pub open spec fn command_text(cmd: Seq<char>) -> Seq<char> {
    cmd + line_end()
}

/// Appends to `out`, the text that goes out to the radio, the command `cmd`
/// and its line end.
pub fn send_cli_command(out: &mut String, cmd: &str)
    ensures
        final(out)@ == old(out)@ + command_text(cmd@),
{
    out.append(cmd);
    out.push('\r');
    out.push('\n');
}

/// The system that the program runs on, as far as the choice of a device
/// depends on it.
#[derive(Debug, Clone, Copy, PartialEq, Eq, Structural)]
pub enum Platform {
    Linux,
    Windows,
    Other,
}

/// What a USB serial device says of itself.
pub struct UsbView {
    pub product: Option<Seq<char>>,
    pub manufacturer: Option<Seq<char>>,
}

/// What is known of a serial device.
pub struct PortView {
    pub port_name: Seq<char>,
    pub usb: Option<UsbView>,
}

/// What a USB serial device says of itself.
#[derive(Debug)]
pub struct UsbInfo {
    pub product: Option<String>,
    pub manufacturer: Option<String>,
}

/// What is known of a serial device: its name, and for a USB device what it
/// says of itself.
#[derive(Debug)]
pub struct PortInfo {
    pub port_name: String,
    pub usb: Option<UsbInfo>,
}

/// What an optional string holds.
pub open spec fn text_of(s: Option<String>) -> Option<Seq<char>> {
    match s {
        Some(s) => Some(s@),
        None => None,
    }
}

impl View for UsbInfo {
    type V = UsbView;

    open spec fn view(&self) -> UsbView {
        UsbView { product: text_of(self.product), manufacturer: text_of(self.manufacturer) }
    }
}

impl View for PortInfo {
    type V = PortView;

    open spec fn view(&self) -> PortView {
        PortView {
            port_name: self.port_name@,
            usb: match self.usb {
                Some(usb) => Some(usb@),
                None => None,
            },
        }
    }
}

/// What each device of `v` is known by.
pub open spec fn ports_of(v: Seq<PortInfo>) -> Seq<PortView> {
    Seq::new(v.len(), |i: int| v[i]@)
}

/// What `str::to_lowercase` makes of a text.
pub uninterp spec fn lowercase(s: Seq<char>) -> Seq<char>;

/// `str::to_lowercase`: the text in lower case.
#[verifier::external_body]
fn to_lowercase(s: &str) -> (out: String)
    ensures
        out@ == lowercase(s@),
{
    s.to_lowercase()
}

/// The text that a device gave, or the empty text where it gave none.
pub open spec fn given(s: Option<Seq<char>>) -> Seq<char> {
    match s {
        Some(s) => s,
        None => Seq::empty(),
    }
}

/// Whether a device says that it is the radio: a USB device whose product,
/// in lower case, holds `esp`, or whose manufacturer holds `espressif`.
pub open spec fn names_the_radio(port: PortView) -> bool {
    match port.usb {
        Some(usb) => holds(lowercase(given(usb.product)), "esp"@) || holds(
            lowercase(given(usb.manufacturer)),
            "espressif"@,
        ),
        None => false,
    }
}

/// Whether a device is named as USB serial adapters are.
pub open spec fn named_like_an_adapter(port: PortView) -> bool {
    holds(port.port_name, "ttyUSB"@) || holds(port.port_name, "ttyACM"@)
}

/// The name of the first device that says that it is the radio.
pub open spec fn first_radio(ports: Seq<PortView>) -> Option<Seq<char>>
    decreases ports.len(),
{
    if ports.len() == 0 {
        None
    } else if names_the_radio(ports[0]) {
        Some(ports[0].port_name)
    } else {
        first_radio(ports.skip(1))
    }
}

/// The name of the first device that is named as USB serial adapters are.
pub open spec fn first_adapter(ports: Seq<PortView>) -> Option<Seq<char>>
    decreases ports.len(),
{
    if ports.len() == 0 {
        None
    } else if named_like_an_adapter(ports[0]) {
        Some(ports[0].port_name)
    } else {
        first_adapter(ports.skip(1))
    }
}

/// The device that is taken for the radio: the first that says so; on Linux,
/// where none does, the first that is named as an adapter. On a system that
/// is neither Linux nor Windows no device is taken.
pub open spec fn radio_port(platform: Platform, ports: Seq<PortView>) -> Option<Seq<char>> {
    match platform {
        Platform::Linux => match first_radio(ports) {
            Some(name) => Some(name),
            None => first_adapter(ports),
        },
        Platform::Windows => first_radio(ports),
        Platform::Other => None,
    }
}

/// Tells whether the text that a device gave, in lower case, holds
/// `needle`.
fn given_holds(s: &Option<String>, needle: &str) -> (b: bool)
    ensures
        b == holds(lowercase(given(text_of(*s))), needle@),
{
    let lower = match s {
        Some(text) => to_lowercase(text.as_str()),
        None => to_lowercase(""),
    };
    proof {
        if s is None {
            reveal_strlit("");
            assert(""@ =~= Seq::<char>::empty());
        }
    }
    let chars = chars_of(lower.as_str());
    let pattern = chars_of(needle);
    contains_text(chars.as_slice(), pattern.as_slice())
}

/// Tells whether a device says that it is the radio.
fn is_radio(port: &PortInfo) -> (b: bool)
    ensures
        b == names_the_radio(port@),
{
    match &port.usb {
        Some(usb) => given_holds(&usb.product, "esp") || given_holds(&usb.manufacturer, "espressif"),
        None => false,
    }
}

/// Tells whether a device is named as USB serial adapters are.
fn is_adapter(port: &PortInfo) -> (b: bool)
    ensures
        b == named_like_an_adapter(port@),
{
    let name = chars_of(port.port_name.as_str());
    let usb = chars_of("ttyUSB");
    let acm = chars_of("ttyACM");
    contains_text(name.as_slice(), usb.as_slice()) || contains_text(name.as_slice(), acm.as_slice())
}

/// Picks among the serial devices of the system the one that is taken for
/// the radio.
pub fn find_esp_port(platform: Platform, ports: &Vec<PortInfo>) -> (out: Option<String>)
    ensures
        text_of(out) == radio_port(platform, ports_of(ports@)),
{
    match platform {
        Platform::Other => {
            return None;
        },
        _ => {},
    }
    let ghost all = ports_of(ports@);
    assert(all.skip(0) =~= all);
    let mut i: usize = 0;
    while i < ports.len()
        invariant
            i <= ports.len(),
            platform != Platform::Other,
            all == ports_of(ports@),
            first_radio(all) == first_radio(all.skip(i as int)),
        decreases ports.len() - i,
    {
        assert(all.skip(i as int).skip(1) =~= all.skip(i + 1));
        if is_radio(&ports[i]) {
            return Some(ports[i].port_name.clone());
        }
        i = i + 1;
    }
    match platform {
        Platform::Linux => {},
        _ => {
            return None;
        },
    }
    let mut k: usize = 0;
    while k < ports.len()
        invariant
            k <= ports.len(),
            platform == Platform::Linux,
            first_radio(all) is None,
            all == ports_of(ports@),
            first_adapter(all) == first_adapter(all.skip(k as int)),
        decreases ports.len() - k,
    {
        assert(all.skip(k as int).skip(1) =~= all.skip(k + 1));
        if is_adapter(&ports[k]) {
            return Some(ports[k].port_name.clone());
        }
        k = k + 1;
    }
    None
}

} // verus!
