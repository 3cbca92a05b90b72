//! Client for Siemens S7 programmable logic controllers over ISO-on-TCP.
//!
//! The library builds the S7 telegrams, checks the answers of the controller
//! and runs the read/write job engine on top of a [`transport::Transport`].
pub mod codec;
pub mod constant;
pub mod error;
pub mod transport;
pub mod pdu;
pub mod exchange;
pub mod info;
pub mod client;
pub mod model;
pub mod tcp;
pub mod field;
