use esp_csi_tui_rs::esp_port::{find_esp_port, Platform, PortInfo, UsbInfo};

fn plain(name: &str) -> PortInfo {
    PortInfo { port_name: name.to_string(), usb: None }
}

fn usb(name: &str, product: Option<&str>, manufacturer: Option<&str>) -> PortInfo {
    PortInfo {
        port_name: name.to_string(),
        usb: Some(UsbInfo {
            product: product.map(|s| s.to_string()),
            manufacturer: manufacturer.map(|s| s.to_string()),
        }),
    }
}

#[test]
fn a_device_that_names_the_radio_is_taken_first() {
    let ports = vec![
        plain("/dev/ttyUSB0"),
        usb("/dev/ttyACM3", Some("USB JTAG/serial debug unit"), Some("Espressif")),
        usb("/dev/ttyACM4", Some("ESP32-S3"), None),
    ];
    assert_eq!(find_esp_port(Platform::Linux, &ports), Some(String::from("/dev/ttyACM3")));
    assert_eq!(find_esp_port(Platform::Windows, &ports), Some(String::from("/dev/ttyACM3")));
    assert_eq!(find_esp_port(Platform::Other, &ports), None);
}

#[test]
fn product_and_manufacturer_are_read_in_any_case() {
    let by_product = vec![usb("COM7", Some("My eSp Board"), None)];
    assert_eq!(find_esp_port(Platform::Windows, &by_product), Some(String::from("COM7")));
    let by_maker = vec![usb("COM8", Some("CP2102"), Some("ESPRESSIF Systems"))];
    assert_eq!(find_esp_port(Platform::Windows, &by_maker), Some(String::from("COM8")));
    // A manufacturer that only holds `esp` does not name the radio.
    let other = vec![usb("COM9", Some("CP2102"), Some("Desperado"))];
    assert_eq!(find_esp_port(Platform::Windows, &other), None);
    let product = vec![usb("COM9", Some("Desperado"), None)];
    assert_eq!(find_esp_port(Platform::Windows, &product), Some(String::from("COM9")));
}

#[test]
fn on_linux_an_adapter_is_taken_where_nothing_names_the_radio() {
    let ports = vec![
        plain("/dev/ttyS0"),
        usb("/dev/ttyACM1", Some("Arduino"), Some("Arduino LLC")),
        plain("/dev/ttyUSB0"),
    ];
    assert_eq!(find_esp_port(Platform::Linux, &ports), Some(String::from("/dev/ttyACM1")));
    assert_eq!(find_esp_port(Platform::Windows, &ports), None);
    let none = vec![plain("/dev/ttyS0"), plain("/dev/ttyusb0")];
    assert_eq!(find_esp_port(Platform::Linux, &none), None);
}

#[test]
fn no_devices_give_no_device() {
    assert_eq!(find_esp_port(Platform::Linux, &Vec::new()), None);
    assert_eq!(find_esp_port(Platform::Windows, &Vec::new()), None);
}
