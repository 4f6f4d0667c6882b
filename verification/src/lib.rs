//! Planner for the flash-upload protocol spoken by ESP32-family ROM (and RAM
//! stub) bootloaders.
//!
//! The library turns a session configuration and a memory segment into the
//! exact, verified stream of protocol steps — framed commands, their timeout
//! rules, and progress notifications — that a serial transport must carry out
//! to erase, transmit, and confirm the segment on the device.  The transport
//! itself (serial I/O, SLIP framing, response decoding) lives outside this
//! crate; it executes the planned steps in order and reports failures back
//! through [`runner::StepRunner`], which enforces the all-or-nothing abort
//! rule of the wire protocol.

pub mod chip;
pub mod chunk;
pub mod codec;
pub mod command;
pub mod error;
pub mod esp32;
pub mod runner;
pub mod segment;
