//! Port addresses, status bits, commands and the encoding of a sector address
//! into the task-file registers.

use vstd::prelude::*;

verus! {

/// Data register: sector contents move through it a 16-bit word at a time.
pub const ATA_PRIMARY_DATA: u16 = 0x1F0;
/// Error register (written with 0 before a command).
pub const ATA_PRIMARY_ERR: u16 = 0x1F1;
/// Sector count register.
pub const ATA_PRIMARY_COUNT: u16 = 0x1F2;
/// LBA bits 0-7.
pub const ATA_PRIMARY_LBA_LO: u16 = 0x1F3;
/// LBA bits 8-15.
pub const ATA_PRIMARY_LBA_MID: u16 = 0x1F4;
/// LBA bits 16-23.
pub const ATA_PRIMARY_LBA_HI: u16 = 0x1F5;
/// Drive/head select register; in LBA mode its low nibble holds LBA bits 24-27.
pub const ATA_PRIMARY_DRIVE: u16 = 0x1F6;
/// Command register (shared with the status register).
pub const ATA_PRIMARY_CMD: u16 = 0x1F7;
/// Status register (shared with the command register).
pub const ATA_PRIMARY_STATUS: u16 = 0x1F7;
/// Device control / alternate status register.
pub const ATA_PRIMARY_CTRL: u16 = 0x3F6;

/// Status bit: the previous command ended in an error.
pub const ATA_STATUS_ERR: u8 = 0x01;
/// Status bit: the drive is ready to transfer a data word.
pub const ATA_STATUS_DRQ: u8 = 0x08;
/// Status bit: overlapped-mode service request.
pub const ATA_STATUS_SRV: u8 = 0x10;
/// Status bit: drive fault.
pub const ATA_STATUS_DF: u8 = 0x20;
/// Status bit: the drive is spun up and ready.
pub const ATA_STATUS_RDY: u8 = 0x40;
/// Status bit: the drive is busy; no other bit is meaningful while it is set.
pub const ATA_STATUS_BSY: u8 = 0x80;

/// READ SECTORS (PIO).
pub const ATA_CMD_READ_SECTORS: u8 = 0x20;
/// WRITE SECTORS (PIO).
pub const ATA_CMD_WRITE_SECTORS: u8 = 0x30;
/// FLUSH CACHE.
pub const ATA_CMD_FLUSH_CACHE: u8 = 0xE7;
/// IDENTIFY DEVICE.
pub const ATA_CMD_IDENTIFY: u8 = 0xEC;

/// Bytes in one sector.
pub const SECTOR_SIZE: usize = 512;
/// 16-bit words in one sector.
pub const SECTOR_WORDS: usize = 256;

/// The first disk: master of the primary channel (IDE0).
pub const DRIVE_ALPHA: u8 = 0;
/// The second disk: master of the secondary channel (IDE1).
pub const DRIVE_BETA: u8 = 1;

/// Drive/head value that selects the master device of a channel in CHS mode,
/// as sent before IDENTIFY.
pub const SELECT_MASTER: u8 = 0xA0;

/// Command block base of the secondary IDE channel.
pub const ATA_SECONDARY_BASE: u16 = 0x170;
/// Device control / alternate status register of the secondary channel.
pub const ATA_SECONDARY_CTRL: u16 = 0x376;

/// Offset of the data register in a command block.
pub const REG_DATA: u16 = 0;
/// Offset of the error register.
pub const REG_ERR: u16 = 1;
/// Offset of the sector count register.
pub const REG_COUNT: u16 = 2;
/// Offset of the LBA-low register.
pub const REG_LBA_LO: u16 = 3;
/// Offset of the LBA-mid register.
pub const REG_LBA_MID: u16 = 4;
/// Offset of the LBA-high register.
pub const REG_LBA_HI: u16 = 5;
/// Offset of the drive/head register.
pub const REG_DRIVE: u16 = 6;
/// Offset of the command register, which reads as the status register.
pub const REG_COMMAND: u16 = 7;

/// The ports of one IDE channel: its eight-register command block and its
/// control register.
#[derive(Clone, Copy, Debug, PartialEq, Eq, Structural)]
pub struct Channel {
    /// Port of the first register (data) of the command block.
    pub base: u16,
    /// Port of the device control / alternate status register.
    pub control: u16,
}

/// The primary channel (IDE0): 0x1F0-0x1F7 and 0x3F6.
pub open spec fn primary_channel() -> Channel {
    Channel { base: ATA_PRIMARY_DATA, control: ATA_PRIMARY_CTRL }
}

/// The secondary channel (IDE1): 0x170-0x177 and 0x376.
pub open spec fn secondary_channel() -> Channel {
    Channel { base: ATA_SECONDARY_BASE, control: ATA_SECONDARY_CTRL }
}

/// One of the two channels the driver knows.
pub open spec fn valid_channel(c: Channel) -> bool {
    c == primary_channel() || c == secondary_channel()
}

/// The channel whose master device is drive `drive_id`: Alpha is the primary
/// master, Beta the secondary master. An unknown id falls back to the
/// primary channel, as its LBA offset falls back to 0.
pub open spec fn drive_channel(drive_id: u8) -> Channel {
    if drive_id == DRIVE_BETA {
        secondary_channel()
    } else {
        primary_channel()
    }
}

/// The port of the register at `offset` in a channel's command block.
pub open spec fn reg(c: Channel, offset: u16) -> u16 {
    (c.base + offset) as u16
}

/// The channel that drive `drive_id` sits on.
pub fn channel_of(drive_id: u8) -> (c: Channel)
    ensures
        c == drive_channel(drive_id),
        valid_channel(c),
{
    if drive_id == DRIVE_BETA {
        Channel { base: ATA_SECONDARY_BASE, control: ATA_SECONDARY_CTRL }
    } else {
        Channel { base: ATA_PRIMARY_DATA, control: ATA_PRIMARY_CTRL }
    }
}

/// The port of the register at `offset` in the command block of `c`.
pub fn channel_register(c: Channel, offset: u16) -> (port: u16)
    requires
        valid_channel(c),
        offset <= REG_COMMAND,
    ensures
        port == reg(c, offset),
{
    c.base + offset
}

/// Number of busy status reads after which a wait gives up.
pub const POLL_TIMEOUT: u32 = 100_000_000;

/// LBA offset of a drive: every drive has its own LBA space, so it is 0 for
/// every drive id, known or not.
pub fn get_lba_offset(drive_id: u8) -> (offset: u32)
    ensures
        offset == 0,
{
    if drive_id == DRIVE_ALPHA {
        0
    } else if drive_id == DRIVE_BETA {
        0
    } else {
        0
    }
}

/// The task-file bytes that carry a 28-bit sector address.
#[derive(Clone, Copy, Debug, PartialEq, Eq, Structural)]
pub struct LbaRegisters {
    /// Drive/head byte: LBA mode (0xE0) with LBA bits 24-27 in the low nibble.
    pub drive: u8,
    /// LBA bits 0-7.
    pub lo: u8,
    /// LBA bits 8-15.
    pub mid: u8,
    /// LBA bits 16-23.
    pub hi: u8,
}

/// The register bytes for sector address `lba`, as arithmetic on its value.
pub open spec fn lba_registers(lba: u32) -> LbaRegisters {
    LbaRegisters {
        drive: (0xE0 + (lba / 0x100_0000) % 16) as u8,
        lo: (lba % 0x100) as u8,
        mid: ((lba / 0x100) % 0x100) as u8,
        hi: ((lba / 0x1_0000) % 0x100) as u8,
    }
}

/// The sector address that a set of register bytes names: the low nibble of
/// the drive byte followed by the three LBA bytes.
pub open spec fn decoded_lba(r: LbaRegisters) -> int {
    (r.drive % 16) as int * 0x100_0000 + r.hi as int * 0x1_0000 + r.mid as int * 0x100 + r.lo as int
}

/// Splits a sector address into the drive/head byte and the three LBA
/// register bytes. Bits 28-31 of `lba` have no register and are dropped.
pub fn encode_lba(lba: u32) -> (r: LbaRegisters)
    ensures
        r == lba_registers(lba),
{
    let drive: u8 = 0xE0u8 | (((lba >> 24u32) as u8) & 0x0Fu8);
    let lo: u8 = (lba & 0xFFu32) as u8;
    let mid: u8 = ((lba >> 8u32) & 0xFFu32) as u8;
    let hi: u8 = ((lba >> 16u32) & 0xFFu32) as u8;
    proof {
        assert(drive == 0xE0 + (lba / 0x100_0000) % 16) by (bit_vector)
            requires
                drive == 0xE0u8 | (((lba >> 24u32) as u8) & 0x0Fu8),
        ;
        assert(lo == lba % 0x100) by (bit_vector)
            requires
                lo == (lba & 0xFFu32) as u8,
        ;
        assert(mid == (lba / 0x100) % 0x100) by (bit_vector)
            requires
                mid == ((lba >> 8u32) & 0xFFu32) as u8,
        ;
        assert(hi == (lba / 0x1_0000) % 0x100) by (bit_vector)
            requires
                hi == ((lba >> 16u32) & 0xFFu32) as u8,
        ;
    }
    LbaRegisters { drive, lo, mid, hi }
}

/// The registers written for a sector address name that address modulo 2^28:
/// exactly the address itself below 2^28, and the drive byte always selects
/// LBA mode (its top three bits are set).
pub proof fn lemma_lba_registers_decode(lba: u32)
    ensures
        decoded_lba(lba_registers(lba)) == lba as int % 0x1000_0000,
        lba < 0x1000_0000 ==> decoded_lba(lba_registers(lba)) == lba,
        lba_registers(lba).drive / 32 == 7,
{
    let r = lba_registers(lba);
    assert(r.drive % 16 == (lba / 0x100_0000) % 16);
    assert((lba / 0x100_0000) % 16 * 0x100_0000 + (lba / 0x1_0000) % 0x100 * 0x1_0000
        + (lba / 0x100) % 0x100 * 0x100 + lba % 0x100 == lba % 0x1000_0000) by (bit_vector);
}

} // verus!
