//! Protocol core for Alpha Outback-type UPSes speaking the CPlus protocol:
//! the message codec and the framing rules of the serial and USB HID transports.
//!
//! Nothing here touches a device. The transport is driven from outside: it
//! performs the action that a query asks for and hands back what happened.

/// The framing of queries on the serial and the HID transport.
pub mod device;
pub mod error;
/// Models of UPS queries and responses.
pub mod model;

pub use crate::error::Error;
