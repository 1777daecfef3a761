//! APDU exchange with a secure element over a USB HID link or an emulator
//! socket.
//!
//! The library holds the framing of both channels and the decisions of an
//! exchange; the program around it performs the reads and writes and hands
//! each outcome back as an [`exchange::Event`].
pub mod error;
pub mod exchange;
pub mod exchange_lemmas;
pub mod hid;
pub mod hid_lemmas;
pub mod socket;
