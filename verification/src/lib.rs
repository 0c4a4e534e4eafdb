//! Decoding of fixed-size inertial-measurement-unit (IMU) sample frames
//! pulled from a serial byte stream.
//!
//! The library covers the pure part of a read-decode-report loop: classifying
//! each read result (data, timeout, error), decoding 48-byte frames into a
//! typed record, and deciding what a whole session of reads must emit.
//! Opening the port, reading bytes and printing reports are left to the
//! surrounding program.

pub mod baud;
pub mod frame;
pub mod session;
