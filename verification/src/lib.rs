//! Acquisition and decoding of Wi-Fi channel-state-information frames that a
//! radio module streams as text, with the tabular format they are stored in
//! and the normalisation that turns them into a heatmap.

pub mod bounded;
pub mod csi_packet;
pub mod csv_utils;
pub mod decimal;
pub mod detect_motion;
pub mod esp_port;
pub mod heatmap;
pub mod menu;
pub mod parse_data;
pub mod read_data;
pub mod saved_data;
pub mod session;
pub mod text;
pub mod wifi_mode;
