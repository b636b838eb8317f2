//! Verified core of the ASPEED Root-of-Trust and coprocessor firmware.
//!
//! The modules hold the hardware-independent logic: the PFR lifecycle state
//! machine, manifest and flash-layout validation, provisioning rules, the SPI
//! write-protect table, mailbox/checkpoint event mapping and the protobuf
//! codec for the inter-core IPC envelope.

pub mod pfr;
pub mod ipc;
pub mod flash;
pub mod manifest;
pub mod provision;
pub mod protocol;
pub mod runtime;
pub mod filter;
pub mod platform;
pub mod verify;
pub mod console;
pub mod bootmcu;
pub mod sensor;
pub mod backend;
