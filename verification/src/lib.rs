//! Verified core of an input-device remapper and macro system: the wire
//! protocol and its framing, the macro engine, the daemon's request handling,
//! the injector's event planning, the security token store, configuration
//! defaults and the GUI's state machine.
pub mod text;
pub mod strmap;
pub mod protocol;
pub mod framing;
pub mod client;
pub mod engine;
pub mod security;
pub mod daemon;
pub mod injector;
pub mod config;
pub mod device;
pub mod gui;
pub mod gui_client;
