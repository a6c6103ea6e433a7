//! Power-meter reading pipeline: decoded SML datagrams are turned into
//! `MeterReading` snapshots, rendered as bus messages and handed to a
//! single-slot latest-value cell.
pub mod cell;
pub mod cli;
pub mod core_loop;
pub mod datagram;
pub mod obis;
pub mod publish;
pub mod reading;
pub mod sml;
pub mod text;
pub mod unit;
