//! A polled ATA PIO driver for 28-bit LBA disks on the primary IDE channel,
//! written as verified state machines that an I/O loop drives port by port.

pub mod registers;
pub mod sector;
pub mod transfer;
pub mod plan;
pub mod detect;
