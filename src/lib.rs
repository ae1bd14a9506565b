//! Routing of raw IPv4 frames between a host process and emulated devices (UEs), each of which
//! lives in a network namespace of its own behind a TUN link.
//!
//! The library decides; its caller performs. It parses and formats addresses, checks IPv4
//! headers, keeps the roster of UEs and the optional gateway, picks the device that a frame goes
//! to and the order in which devices are polled, and builds the arguments of the `ip` and `bash`
//! commands that provision a namespace.
pub mod addr;
pub mod cabernet;
pub mod error;
pub mod frame;
pub mod provision;
pub mod text;

pub use addr::{ipv4_to_string, parse_ipv4, Ipv4};
pub use cabernet::{Cabernet, Roster, Slot, UE};
pub use error::{CabernetError, Result};
pub use frame::{frame_destination, frame_from_read, RecvEvent};
pub use provision::netns_for_ip;
