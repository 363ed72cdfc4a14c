//! Verified core of a RuuviTag exporter: Bluetooth addresses, the decoding of RuuviTag
//! readings into named values, the gauge updates and log records made from them, the
//! choice of BlueZ objects to follow, the table of tracked devices, and the routing of
//! HTTP requests.
pub mod addr;
pub mod bluez;
pub mod data;
pub mod devices;
pub mod prom;
pub mod reading;
pub mod serve;
pub mod text;
