//! The stage lists of the driver's transactions: sector read, sector write
//! and drive identification. Each runs on the channel of the drive it is for.

use vstd::prelude::*;
use crate::registers::{
    channel_of, channel_register, drive_channel, encode_lba, get_lba_offset, lba_registers, reg,
    valid_channel, Channel, LbaRegisters, ATA_CMD_FLUSH_CACHE, ATA_CMD_IDENTIFY,
    ATA_CMD_READ_SECTORS, ATA_CMD_WRITE_SECTORS, REG_COMMAND, REG_COUNT, REG_DRIVE, REG_ERR,
    REG_LBA_HI, REG_LBA_LO, REG_LBA_MID, SECTOR_SIZE, SECTOR_WORDS, SELECT_MASTER,
};
use crate::sector::{bytes_of_words, sector_to_words, words_of_bytes};
use crate::transfer::{
    cost_of, lemma_cost_of_append, lemma_cost_of_single, lemma_cost_of_unit_stages,
    lemma_start_steps, wait_round_cost, lemma_no_words, lemma_success_reads_all_words, stage_ok, stages_on_channel, transfer_start,
    words_read_by, PortAction, PortInput, Stage, Transfer, TransferView,
};

verus! {

/// Attempts of the busy wait after the reset during identification.
pub const RESET_WAIT_ATTEMPTS: u32 = 10;
/// Status reads allowed for BSY to clear after IDENTIFY.
pub const IDENTIFY_BUSY_READS: u32 = 100;
/// Status reads allowed for DRQ to show after IDENTIFY.
pub const IDENTIFY_DRQ_READS: u32 = 100;
/// Value written to the control register to start a software reset.
pub const CONTROL_RESET: u8 = 0x04;
/// Value written to the control register to end the reset.
pub const CONTROL_RUN: u8 = 0x00;

/// The settling delay after a register write: four reads of the channel's
/// alternate status register (about 400 ns).
pub open spec fn settle_stages(c: Channel) -> Seq<Stage> {
    seq![
        Stage::Discard8 { port: c.control },
        Stage::Discard8 { port: c.control },
        Stage::Discard8 { port: c.control },
        Stage::Discard8 { port: c.control },
    ]
}

/// The task-file writes of a one-sector command at the given address.
pub open spec fn command_stages(c: Channel, r: LbaRegisters, command: u8) -> Seq<Stage> {
    seq![
        Stage::Out8 { port: reg(c, REG_ERR), value: 0 },
        Stage::Out8 { port: reg(c, REG_COUNT), value: 1 },
        Stage::Out8 { port: reg(c, REG_LBA_LO), value: r.lo },
        Stage::Out8 { port: reg(c, REG_LBA_MID), value: r.mid },
        Stage::Out8 { port: reg(c, REG_LBA_HI), value: r.hi },
        Stage::Out8 { port: reg(c, REG_COMMAND), value: command },
    ]
}

/// Selecting the channel's master in LBA mode, settling, and waiting for BSY
/// to clear, then the command itself, settling, and waiting for DRQ.
pub open spec fn sector_command_stages(c: Channel, lba: u32, command: u8) -> Seq<Stage> {
    let r = lba_registers(lba);
    seq![Stage::Out8 { port: reg(c, REG_DRIVE), value: r.drive }]
        + settle_stages(c)
        + seq![Stage::WaitNotBusy]
        + command_stages(c, r, command)
        + settle_stages(c)
        + seq![Stage::WaitDataRequest]
}

/// The stages of a one-sector read of sector `lba` of drive `drive_id`, on
/// that drive's channel: the READ SECTORS command and the 256 data words.
pub open spec fn read_stages(drive_id: u8, lba: u32) -> Seq<Stage> {
    sector_command_stages(drive_channel(drive_id), lba, ATA_CMD_READ_SECTORS)
        + seq![Stage::ReadWords { count: SECTOR_WORDS as u32 }]
}

/// The stages of a one-sector write to sector `lba` of drive `drive_id`, on
/// that drive's channel: the WRITE SECTORS command, the 256 data words, then
/// FLUSH CACHE and a wait for BSY to clear.
pub open spec fn write_stages(drive_id: u8, lba: u32) -> Seq<Stage> {
    let c = drive_channel(drive_id);
    sector_command_stages(c, lba, ATA_CMD_WRITE_SECTORS) + seq![
        Stage::WriteWords,
        Stage::Out8 { port: reg(c, REG_COMMAND), value: ATA_CMD_FLUSH_CACHE },
        Stage::WaitNotBusy,
    ]
}

/// The stages that probe for drive `drive_id` on its channel: select the
/// channel's master, pulse a software reset, wait (up to ten rounds) for BSY
/// to clear, send IDENTIFY with a zeroed task file, check the answer and read
/// the 256 identification words.
pub open spec fn identify_stages(drive_id: u8) -> Seq<Stage> {
    let c = drive_channel(drive_id);
    seq![Stage::Out8 { port: reg(c, REG_DRIVE), value: SELECT_MASTER }]
        + settle_stages(c)
        + seq![Stage::Out8 { port: c.control, value: CONTROL_RESET }]
        + settle_stages(c)
        + seq![Stage::Out8 { port: c.control, value: CONTROL_RUN }]
        + settle_stages(c)
        + seq![
            Stage::WaitNotBusyRetried { attempts: RESET_WAIT_ATTEMPTS },
            Stage::Out8 { port: reg(c, REG_COUNT), value: 0 },
            Stage::Out8 { port: reg(c, REG_LBA_LO), value: 0 },
            Stage::Out8 { port: reg(c, REG_LBA_MID), value: 0 },
            Stage::Out8 { port: reg(c, REG_LBA_HI), value: 0 },
            Stage::Out8 { port: reg(c, REG_COMMAND), value: ATA_CMD_IDENTIFY },
        ]
        + settle_stages(c)
        + seq![
            Stage::CheckPresence,
            Stage::PollNotBusy { reads: IDENTIFY_BUSY_READS },
            Stage::CheckSignature,
            Stage::PollDataRequest { reads: IDENTIFY_DRQ_READS },
            Stage::ReadWords { count: SECTOR_WORDS as u32 },
        ]
}

/// Every stage of the driver's transactions can run (with a sector of
/// outgoing words for a write and none otherwise), and the words each reads
/// fit the machine's bounds.
pub proof fn lemma_plans_runnable(drive_id: u8, lba: u32)
    ensures
        forall|i: int| 0 <= i < read_stages(drive_id, lba).len()
            ==> #[trigger] stage_ok(read_stages(drive_id, lba)[i], 0),
        forall|i: int| 0 <= i < write_stages(drive_id, lba).len()
            ==> #[trigger] stage_ok(write_stages(drive_id, lba)[i], SECTOR_WORDS as nat),
        forall|i: int| 0 <= i < identify_stages(drive_id).len()
            ==> #[trigger] stage_ok(identify_stages(drive_id)[i], 0),
        2 * words_read_by(read_stages(drive_id, lba)) <= usize::MAX,
        2 * words_read_by(write_stages(drive_id, lba)) <= usize::MAX,
        2 * words_read_by(identify_stages(drive_id)) <= usize::MAX,
{
    lemma_words_moved(drive_id, lba);
}

fn push_settle(c: Channel, v: &mut Vec<Stage>)
    ensures
        final(v)@ == old(v)@ + settle_stages(c),
{
    v.push(Stage::Discard8 { port: c.control });
    v.push(Stage::Discard8 { port: c.control });
    v.push(Stage::Discard8 { port: c.control });
    v.push(Stage::Discard8 { port: c.control });
    assert(final(v)@ =~= old(v)@ + settle_stages(c));
}

fn sector_command(c: Channel, drive_id: u8, lba: u32, command: u8) -> (v: Vec<Stage>)
    requires
        valid_channel(c),
    ensures
        v@ == sector_command_stages(c, lba, command),
{
    let offset_lba: u32 = lba + get_lba_offset(drive_id);
    let r = encode_lba(offset_lba);
    let mut v: Vec<Stage> = Vec::new();
    v.push(Stage::Out8 { port: channel_register(c, REG_DRIVE), value: r.drive });
    push_settle(c, &mut v);
    v.push(Stage::WaitNotBusy);
    v.push(Stage::Out8 { port: channel_register(c, REG_ERR), value: 0 });
    v.push(Stage::Out8 { port: channel_register(c, REG_COUNT), value: 1 });
    v.push(Stage::Out8 { port: channel_register(c, REG_LBA_LO), value: r.lo });
    v.push(Stage::Out8 { port: channel_register(c, REG_LBA_MID), value: r.mid });
    v.push(Stage::Out8 { port: channel_register(c, REG_LBA_HI), value: r.hi });
    v.push(Stage::Out8 { port: channel_register(c, REG_COMMAND), value: command });
    push_settle(c, &mut v);
    v.push(Stage::WaitDataRequest);
    assert(v@ =~= sector_command_stages(c, lba, command));
    v
}

/// Starts a one-sector read of sector `lba` of drive `drive_id`, on the
/// channel of that drive.
pub fn read_sector(drive_id: u8, lba: u32) -> (t: Transfer)
    ensures
        t@ == transfer_start(drive_channel(drive_id), read_stages(drive_id, lba), Seq::empty()),
        t.wf(),
{
    let c = channel_of(drive_id);
    let mut v = sector_command(c, drive_id, lba, ATA_CMD_READ_SECTORS);
    v.push(Stage::ReadWords { count: SECTOR_WORDS as u32 });
    assert(v@ =~= read_stages(drive_id, lba));
    proof {
        lemma_plans_runnable(drive_id, lba);
    }
    Transfer::new(c, v, Vec::new())
}

/// Starts a one-sector write of `buf` to sector `lba` of drive `drive_id`, on
/// the channel of that drive; the words sent are the buffer's bytes taken two
/// at a time, low byte first.
pub fn write_sector(drive_id: u8, lba: u32, buf: &[u8]) -> (t: Transfer)
    requires
        buf@.len() == SECTOR_SIZE,
    ensures
        t@ == transfer_start(drive_channel(drive_id), write_stages(drive_id, lba), words_of_bytes(buf@)),
        t.wf(),
{
    let c = channel_of(drive_id);
    let mut v = sector_command(c, drive_id, lba, ATA_CMD_WRITE_SECTORS);
    v.push(Stage::WriteWords);
    v.push(Stage::Out8 { port: channel_register(c, REG_COMMAND), value: ATA_CMD_FLUSH_CACHE });
    v.push(Stage::WaitNotBusy);
    assert(v@ =~= write_stages(drive_id, lba));
    let out = sector_to_words(buf);
    proof {
        lemma_plans_runnable(drive_id, lba);
    }
    Transfer::new(c, v, out)
}

/// Starts the probe of drive `drive_id` (Alpha, the primary master, or Beta,
/// the secondary master).
pub fn detect_drive(drive_id: u8) -> (t: Transfer)
    ensures
        t@ == transfer_start(drive_channel(drive_id), identify_stages(drive_id), Seq::empty()),
        t.wf(),
{
    let c = channel_of(drive_id);
    let mut v: Vec<Stage> = Vec::new();
    v.push(Stage::Out8 { port: channel_register(c, REG_DRIVE), value: SELECT_MASTER });
    push_settle(c, &mut v);
    v.push(Stage::Out8 { port: c.control, value: CONTROL_RESET });
    push_settle(c, &mut v);
    v.push(Stage::Out8 { port: c.control, value: CONTROL_RUN });
    push_settle(c, &mut v);
    v.push(Stage::WaitNotBusyRetried { attempts: RESET_WAIT_ATTEMPTS });
    v.push(Stage::Out8 { port: channel_register(c, REG_COUNT), value: 0 });
    v.push(Stage::Out8 { port: channel_register(c, REG_LBA_LO), value: 0 });
    v.push(Stage::Out8 { port: channel_register(c, REG_LBA_MID), value: 0 });
    v.push(Stage::Out8 { port: channel_register(c, REG_LBA_HI), value: 0 });
    v.push(Stage::Out8 { port: channel_register(c, REG_COMMAND), value: ATA_CMD_IDENTIFY });
    push_settle(c, &mut v);
    v.push(Stage::CheckPresence);
    v.push(Stage::PollNotBusy { reads: IDENTIFY_BUSY_READS });
    v.push(Stage::CheckSignature);
    v.push(Stage::PollDataRequest { reads: IDENTIFY_DRQ_READS });
    v.push(Stage::ReadWords { count: SECTOR_WORDS as u32 });
    assert(v@ =~= identify_stages(drive_id));
    proof {
        lemma_plans_runnable(drive_id, 0);
    }
    Transfer::new(c, v, Vec::new())
}

/// Words read by each transaction: a sector read calls for one sector (256
/// words, that is 512 bytes), a write for none, a probe for the 256
/// identification words.
pub proof fn lemma_words_moved(drive_id: u8, lba: u32)
    ensures
        words_read_by(read_stages(drive_id, lba)) == SECTOR_WORDS,
        words_read_by(write_stages(drive_id, lba)) == 0,
        words_read_by(identify_stages(drive_id)) == SECTOR_WORDS,
{
    let r = read_stages(drive_id, lba);
    let w = write_stages(drive_id, lba);
    let d = identify_stages(drive_id);
    assert forall|i: int| 0 <= i < r.drop_last().len() implies !(#[trigger] r.drop_last()[i] is ReadWords) by {}
    lemma_no_words(r.drop_last());
    assert forall|i: int| 0 <= i < w.len() implies !(#[trigger] w[i] is ReadWords) by {}
    lemma_no_words(w);
    assert forall|i: int| 0 <= i < d.drop_last().len() implies !(#[trigger] d.drop_last()[i] is ReadWords) by {}
    lemma_no_words(d.drop_last());
}

/// The read and write commands address the sector they were asked for on the
/// channel of the drive they were asked for: the register bytes they write
/// name `lba` (for any `lba` below 2^28), the drive byte selects the
/// channel's master in LBA mode, and the command byte is READ SECTORS or
/// WRITE SECTORS.
pub proof fn lemma_sector_commands_address(drive_id: u8, lba: u32)
    ensures
        ({
            let c = drive_channel(drive_id);
            let r = lba_registers(lba);
            &&& read_stages(drive_id, lba)[0] == (Stage::Out8 { port: reg(c, REG_DRIVE), value: r.drive })
            &&& write_stages(drive_id, lba)[0] == (Stage::Out8 { port: reg(c, REG_DRIVE), value: r.drive })
            &&& read_stages(drive_id, lba)[8] == (Stage::Out8 { port: reg(c, REG_LBA_LO), value: r.lo })
            &&& read_stages(drive_id, lba)[9] == (Stage::Out8 { port: reg(c, REG_LBA_MID), value: r.mid })
            &&& read_stages(drive_id, lba)[10] == (Stage::Out8 { port: reg(c, REG_LBA_HI), value: r.hi })
            &&& read_stages(drive_id, lba)[11] == (Stage::Out8 { port: reg(c, REG_COMMAND), value: ATA_CMD_READ_SECTORS })
            &&& write_stages(drive_id, lba)[8] == (Stage::Out8 { port: reg(c, REG_LBA_LO), value: r.lo })
            &&& write_stages(drive_id, lba)[9] == (Stage::Out8 { port: reg(c, REG_LBA_MID), value: r.mid })
            &&& write_stages(drive_id, lba)[10] == (Stage::Out8 { port: reg(c, REG_LBA_HI), value: r.hi })
            &&& write_stages(drive_id, lba)[11] == (Stage::Out8 { port: reg(c, REG_COMMAND), value: ATA_CMD_WRITE_SECTORS })
            &&& r.drive & 0x10 == 0
        }),
        lba < 0x1000_0000 ==> crate::registers::decoded_lba(lba_registers(lba)) == lba,
{
    crate::registers::lemma_lba_registers_decode(lba);
    let d = lba_registers(lba).drive;
    assert(d / 32 == 7 && d % 16 < 16 ==> d & 0x10 == 0) by (bit_vector)
        requires
            d == 0xE0 + (d % 16),
    ;
}

/// A fresh probe is a well-formed, running transaction.
pub proof fn lemma_identify_start_wf(drive_id: u8)
    ensures
        transfer_start(drive_channel(drive_id), identify_stages(drive_id), Seq::empty()).wf(),
        !transfer_start(drive_channel(drive_id), identify_stages(drive_id), Seq::empty()).finished(),
{
    lemma_plans_runnable(drive_id, 0);
    assert(identify_stages(drive_id).take(0) =~= Seq::<Stage>::empty());
}

/// A read transaction that succeeded holds exactly one sector of data: the
/// bytes it hands out are 512, carried by the 256 words it read.
pub proof fn lemma_read_success_gives_sector(v: TransferView, drive_id: u8, lba: u32)
    requires
        v.wf(),
        v.stages == read_stages(drive_id, lba),
        v.finished(),
        !v.failed,
    ensures
        v.words_in.len() == SECTOR_WORDS,
        bytes_of_words(v.words_in).len() == SECTOR_SIZE,
{
    lemma_success_reads_all_words(v);
    lemma_words_moved(drive_id, lba);
}

/// Each transaction addresses only the channel of the drive it is for: Alpha's
/// touch 0x1F0-0x1F7 and 0x3F6, Beta's 0x170-0x177 and 0x376.
pub proof fn lemma_plans_on_channel(drive_id: u8, lba: u32)
    ensures
        stages_on_channel(read_stages(drive_id, lba), drive_channel(drive_id)),
        stages_on_channel(write_stages(drive_id, lba), drive_channel(drive_id)),
        stages_on_channel(identify_stages(drive_id), drive_channel(drive_id)),
{
}

/// Port accesses and pauses that each transaction takes at most (with
/// `lemma_steps_bound`): a sector read 400_000_275, a sector write
/// 600_000_278, a probe 2_000_000_503. The
/// bulk of each bound is the status waits (200_000_002 steps per round).
pub proof fn lemma_plan_step_bounds(drive_id: u8, lba: u32, buf: Seq<u8>)
    requires
        buf.len() == SECTOR_SIZE,
    ensures
        transfer_start(drive_channel(drive_id), read_stages(drive_id, lba), Seq::empty()).steps_left()
            == 400_000_275,
        transfer_start(drive_channel(drive_id), write_stages(drive_id, lba), words_of_bytes(buf)).steps_left()
            == 600_000_278,
        transfer_start(drive_channel(drive_id), identify_stages(drive_id), Seq::empty()).steps_left()
            == 2_000_000_503,
{
    let c = drive_channel(drive_id);
    let r = lba_registers(lba);
    lemma_plans_runnable(drive_id, lba);
    lemma_cost_of_unit_stages(settle_stages(c), 0);
    lemma_cost_of_unit_stages(settle_stages(c), 256);
    lemma_cost_of_unit_stages(command_stages(c, r, ATA_CMD_READ_SECTORS), 0);
    lemma_cost_of_unit_stages(command_stages(c, r, ATA_CMD_WRITE_SECTORS), 256);
    // The shared command prefix.
    assert forall|n: nat, cmd: u8| n == 0 || n == 256 implies
        #[trigger] cost_of(sector_command_stages(c, lba, cmd), n) == 15 + 2 * wait_round_cost() by {
        let p1 = seq![Stage::Out8 { port: reg(c, REG_DRIVE), value: r.drive }];
        let p2 = p1 + settle_stages(c);
        let p3 = p2 + seq![Stage::WaitNotBusy];
        let p4 = p3 + command_stages(c, r, cmd);
        let p5 = p4 + settle_stages(c);
        lemma_cost_of_unit_stages(settle_stages(c), n);
        lemma_cost_of_unit_stages(command_stages(c, r, cmd), n);
        lemma_cost_of_single(Stage::Out8 { port: reg(c, REG_DRIVE), value: r.drive }, n);
        lemma_cost_of_single(Stage::WaitNotBusy, n);
        lemma_cost_of_single(Stage::WaitDataRequest, n);
        lemma_cost_of_append(p1, settle_stages(c), n);
        lemma_cost_of_append(p2, seq![Stage::WaitNotBusy], n);
        lemma_cost_of_append(p3, command_stages(c, r, cmd), n);
        lemma_cost_of_append(p4, settle_stages(c), n);
        lemma_cost_of_append(p5, seq![Stage::WaitDataRequest], n);
    }
    // Read.
    let rd = sector_command_stages(c, lba, ATA_CMD_READ_SECTORS);
    assert(cost_of(rd, 0) == 15 + 2 * wait_round_cost());
    lemma_cost_of_single(Stage::ReadWords { count: SECTOR_WORDS as u32 }, 0);
    lemma_cost_of_append(rd, seq![Stage::ReadWords { count: SECTOR_WORDS as u32 }], 0);
    lemma_start_steps(c, read_stages(drive_id, lba), Seq::empty());
    // Write.
    let zeros = words_of_bytes(buf);
    assert(zeros.len() == 256);
    let wr = sector_command_stages(c, lba, ATA_CMD_WRITE_SECTORS);
    assert(cost_of(wr, 256) == 15 + 2 * wait_round_cost());
    let tail = seq![
        Stage::WriteWords,
        Stage::Out8 { port: reg(c, REG_COMMAND), value: ATA_CMD_FLUSH_CACHE },
        Stage::WaitNotBusy,
    ];
    assert(tail =~= seq![Stage::WriteWords] + seq![Stage::Out8 { port: reg(c, REG_COMMAND), value: ATA_CMD_FLUSH_CACHE }] + seq![Stage::WaitNotBusy]);
    lemma_cost_of_single(Stage::WriteWords, 256);
    lemma_cost_of_single(Stage::Out8 { port: reg(c, REG_COMMAND), value: ATA_CMD_FLUSH_CACHE }, 256);
    lemma_cost_of_single(Stage::WaitNotBusy, 256);
    lemma_cost_of_append(seq![Stage::WriteWords], seq![Stage::Out8 { port: reg(c, REG_COMMAND), value: ATA_CMD_FLUSH_CACHE }], 256);
    lemma_cost_of_append(seq![Stage::WriteWords] + seq![Stage::Out8 { port: reg(c, REG_COMMAND), value: ATA_CMD_FLUSH_CACHE }], seq![Stage::WaitNotBusy], 256);
    lemma_cost_of_append(wr, tail, 256);
    lemma_start_steps(c, write_stages(drive_id, lba), zeros);
    // Probe.
    let q1 = seq![Stage::Out8 { port: reg(c, REG_DRIVE), value: SELECT_MASTER }];
    let q2 = q1 + settle_stages(c);
    let q3 = q2 + seq![Stage::Out8 { port: c.control, value: CONTROL_RESET }];
    let q4 = q3 + settle_stages(c);
    let q5 = q4 + seq![Stage::Out8 { port: c.control, value: CONTROL_RUN }];
    let q6 = q5 + settle_stages(c);
    let mid = seq![
        Stage::WaitNotBusyRetried { attempts: RESET_WAIT_ATTEMPTS },
        Stage::Out8 { port: reg(c, REG_COUNT), value: 0 },
        Stage::Out8 { port: reg(c, REG_LBA_LO), value: 0 },
        Stage::Out8 { port: reg(c, REG_LBA_MID), value: 0 },
        Stage::Out8 { port: reg(c, REG_LBA_HI), value: 0 },
        Stage::Out8 { port: reg(c, REG_COMMAND), value: ATA_CMD_IDENTIFY },
    ];
    let q7 = q6 + mid;
    let q8 = q7 + settle_stages(c);
    let fin = seq![
        Stage::CheckPresence,
        Stage::PollNotBusy { reads: IDENTIFY_BUSY_READS },
        Stage::CheckSignature,
        Stage::PollDataRequest { reads: IDENTIFY_DRQ_READS },
        Stage::ReadWords { count: SECTOR_WORDS as u32 },
    ];
    assert(mid.skip(1).len() == 5);
    lemma_cost_of_unit_stages(mid.skip(1), 0);
    assert(cost_of(mid, 0) == 10 * 200_000_002 + 5);
    reveal_with_fuel(cost_of, 6);
    assert(fin.skip(1).skip(1).skip(1).skip(1).skip(1) =~= Seq::<Stage>::empty());
    assert(cost_of(fin, 0) == 1 + 100 + 2 + 100 + 256);
    lemma_cost_of_single(Stage::Out8 { port: reg(c, REG_DRIVE), value: SELECT_MASTER }, 0);
    lemma_cost_of_single(Stage::Out8 { port: c.control, value: CONTROL_RESET }, 0);
    lemma_cost_of_single(Stage::Out8 { port: c.control, value: CONTROL_RUN }, 0);
    lemma_cost_of_append(q1, settle_stages(c), 0);
    lemma_cost_of_append(q2, seq![Stage::Out8 { port: c.control, value: CONTROL_RESET }], 0);
    lemma_cost_of_append(q3, settle_stages(c), 0);
    lemma_cost_of_append(q4, seq![Stage::Out8 { port: c.control, value: CONTROL_RUN }], 0);
    lemma_cost_of_append(q5, settle_stages(c), 0);
    lemma_cost_of_append(q6, mid, 0);
    lemma_cost_of_append(q7, settle_stages(c), 0);
    lemma_cost_of_append(q8, fin, 0);
    lemma_start_steps(c, identify_stages(drive_id), Seq::empty());
}

/// A sector write ends with FLUSH CACHE followed by a busy wait: once the
/// data is sent and the flush issued, the first status read with BSY clear
/// ends the write successfully, whatever DRQ and the other bits show.
pub proof fn lemma_write_ends_on_flush_idle(v: TransferView, drive_id: u8, lba: u32, s: u8)
    requires
        v.wf(),
        v.stages == write_stages(drive_id, lba),
        !v.failed,
        v.at == v.stages.len() - 1,
        !v.pausing,
        s & crate::registers::ATA_STATUS_BSY == 0,
    ensures
        v.stages[v.at as int - 1] == (Stage::Out8 {
            port: reg(drive_channel(drive_id), REG_COMMAND),
            value: ATA_CMD_FLUSH_CACHE,
        }),
        v.after(PortInput::Byte(s)).finished(),
        !v.after(PortInput::Byte(s)).failed,
        v.after(PortInput::Byte(s)).action() == (PortAction::Finish { ok: true }),
{
}

} // verus!
