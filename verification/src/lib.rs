//! Client-side logic for media-streamer devices that speak the External
//! Control Protocol (ECP): an HTTP API on port 8060, SSDP-based discovery
//! on the local network, and Wake-on-LAN assisted power control.
//!
//! The library holds the verified logic: request and endpoint construction,
//! XML scraping, MAC handling, the power state machine, discovery
//! deduplication, and the decision rules of the waking POST. The sockets and
//! HTTP calls themselves live outside, in a thin shell that hands every
//! response back to these functions as a plain value.

pub mod apps;
pub mod client;
pub mod device;
pub mod remote;
pub mod ssdp;
pub mod wol;
pub mod mac;
pub mod xml;
pub mod strutil;

pub use apps::App;
pub use client::HTTPEVENT;
pub use client::WAKINGSTEP;
pub use device::Device;
pub use device::NETWORKTYPE;
pub use device::POWERSTATE;
pub use device::POWERCOMMAND;
pub use device::POWERACTION;
pub use mac::parse_mac;
pub use mac::split_mac;
pub use mac::format_mac;
pub use remote::BUTTON;
pub use ssdp::SsdpResponder;
