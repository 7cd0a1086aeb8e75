//! Input pipeline of a small mechanical keyboard: a matrix scanner with
//! tap and hold-repeat timing, a bounded report queue, and the protocol
//! decisions of the USB and BLE HID transports that drain it.

pub mod ble;
pub mod descriptor;
pub mod keymap;
pub mod queue;
pub mod reg;
pub mod report;
pub mod scanner;
pub mod transport;
pub mod usb;
