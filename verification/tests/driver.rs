use ata::detect::{ata_detect, get_disk_count, Detection};
use ata::plan::{detect_drive, read_sector, write_sector};
use ata::registers::{
    encode_lba, get_lba_offset, LbaRegisters, ATA_PRIMARY_CMD, ATA_PRIMARY_COUNT, ATA_PRIMARY_CTRL,
    ATA_PRIMARY_DATA, ATA_PRIMARY_DRIVE, ATA_PRIMARY_ERR, ATA_PRIMARY_LBA_HI, ATA_PRIMARY_LBA_LO,
    ATA_PRIMARY_LBA_MID, ATA_PRIMARY_STATUS, ATA_SECONDARY_BASE, ATA_SECONDARY_CTRL, DRIVE_ALPHA,
    DRIVE_BETA, SELECT_MASTER,
};
use ata::sector::{sector_to_words, words_to_sector};
use ata::transfer::{PortAction, PortInput, Transfer};

/// A simulated IDE channel: status register contents come from a script
/// (the last entry repeats), the signature registers hold fixed bytes, and
/// the data register yields 0x0100, 0x0302, ... Every access must be to one
/// of the channel's own ports.
struct FakeChannel {
    base: u16,
    control: u16,
    statuses: Vec<u8>,
    next_status: usize,
    mid: u8,
    hi: u8,
    next_word: u16,
}

impl FakeChannel {
    fn new(statuses: Vec<u8>) -> FakeChannel {
        FakeChannel::on(0x1F0, 0x3F6, statuses)
    }

    fn secondary(statuses: Vec<u8>) -> FakeChannel {
        FakeChannel::on(ATA_SECONDARY_BASE, ATA_SECONDARY_CTRL, statuses)
    }

    fn on(base: u16, control: u16, statuses: Vec<u8>) -> FakeChannel {
        FakeChannel { base, control, statuses, next_status: 0, mid: 0, hi: 0, next_word: 0 }
    }

    fn owns(&self, port: u16) -> bool {
        (self.base..=self.base + 7).contains(&port) || port == self.control
    }

    fn respond(&mut self, a: &PortAction) -> PortInput {
        match *a {
            PortAction::Out8 { port, .. } | PortAction::Out16 { port, .. } => {
                assert!(self.owns(port));
                PortInput::Done
            },
            PortAction::Pause => PortInput::Done,
            PortAction::In8 { port } => {
                assert!(self.owns(port));
                if port == self.base + 7 {
                    let i = self.next_status.min(self.statuses.len() - 1);
                    self.next_status += 1;
                    PortInput::Byte(self.statuses[i])
                } else if port == self.base + 4 {
                    PortInput::Byte(self.mid)
                } else if port == self.base + 5 {
                    PortInput::Byte(self.hi)
                } else {
                    PortInput::Byte(0x50)
                }
            },
            PortAction::In16 { port } => {
                assert_eq!(port, self.base);
                let lo = (self.next_word as u8).wrapping_mul(2);
                let w = (lo as u16) | (((lo.wrapping_add(1)) as u16) << 8);
                self.next_word += 1;
                PortInput::Word(w)
            },
            PortAction::Finish { .. } => unreachable!(),
        }
    }
}

fn run_transfer(t: &mut Transfer, ch: &mut FakeChannel) -> (bool, Vec<PortAction>) {
    let mut log = Vec::new();
    loop {
        let a = t.action();
        if let PortAction::Finish { ok } = a {
            return (ok, log);
        }
        let input = ch.respond(&a);
        assert!(t.accepts(input));
        log.push(a);
        t.advance(input);
    }
}

fn run_detection(d: &mut Detection, alpha: &mut FakeChannel, beta: &mut FakeChannel) -> bool {
    let mut last_beta = false;
    loop {
        let a = d.action();
        if let PortAction::Finish { ok } = a {
            return ok;
        }
        let port = match a {
            PortAction::Out8 { port, .. } | PortAction::Out16 { port, .. } => Some(port),
            PortAction::In8 { port } | PortAction::In16 { port } => Some(port),
            _ => None,
        };
        let on_beta = match port {
            Some(p) => beta.owns(p),
            None => last_beta,
        };
        last_beta = on_beta;
        let input = if on_beta { beta.respond(&a) } else { alpha.respond(&a) };
        assert!(d.accepts(input));
        d.advance(input);
    }
}

fn settle() -> Vec<PortAction> {
    vec![PortAction::In8 { port: ATA_PRIMARY_CTRL }; 4]
}

const READY_DRQ: u8 = 0x58;

#[test]
fn lba_offset_is_zero_for_every_drive() {
    assert_eq!(get_lba_offset(DRIVE_ALPHA), 0);
    assert_eq!(get_lba_offset(DRIVE_BETA), 0);
    assert_eq!(get_lba_offset(7), 0);
}

#[test]
fn lba_is_split_into_registers() {
    assert_eq!(encode_lba(0x0123_4567), LbaRegisters { drive: 0xE1, lo: 0x67, mid: 0x45, hi: 0x23 });
    assert_eq!(encode_lba(0), LbaRegisters { drive: 0xE0, lo: 0, mid: 0, hi: 0 });
    assert_eq!(encode_lba(0x0FFF_FFFF), LbaRegisters { drive: 0xEF, lo: 0xFF, mid: 0xFF, hi: 0xFF });
}

#[test]
fn lba_bits_above_27_are_dropped() {
    assert_eq!(encode_lba(0xF000_0001), encode_lba(0x0000_0001));
    assert_eq!(encode_lba(0x1234_5678), LbaRegisters { drive: 0xE2, lo: 0x78, mid: 0x56, hi: 0x34 });
}

#[test]
fn words_carry_bytes_low_first() {
    assert_eq!(sector_to_words(&[0x34, 0x12, 0xCD, 0xAB]), vec![0x1234, 0xABCD]);
    assert_eq!(words_to_sector(&[0x1234, 0xABCD]), vec![0x34, 0x12, 0xCD, 0xAB]);
    assert_eq!(sector_to_words(&[]), Vec::<u16>::new());
}

#[test]
fn sector_bytes_round_trip() {
    let buf: Vec<u8> = (0..512).map(|i| (i * 7 + 3) as u8).collect();
    let words = sector_to_words(&buf);
    assert_eq!(words.len(), 256);
    assert_eq!(words_to_sector(&words), buf);
}

#[test]
fn sector_words_round_trip() {
    let words: Vec<u16> = (0..256).map(|i| (i * 0x0101 + 0x00F0) as u16).collect();
    assert_eq!(sector_to_words(&words_to_sector(&words)), words);
}

#[test]
fn read_issues_the_register_sequence_and_returns_the_sector() {
    let mut t = read_sector(DRIVE_ALPHA, 0x0012_3456);
    let mut ch = FakeChannel::new(vec![READY_DRQ]);
    let (ok, log) = run_transfer(&mut t, &mut ch);
    assert!(ok);
    assert!(!t.has_failed());
    assert!(t.is_finished());
    let mut expected = vec![PortAction::Out8 { port: ATA_PRIMARY_DRIVE, value: 0xE0 }];
    expected.extend(settle());
    expected.push(PortAction::In8 { port: ATA_PRIMARY_STATUS });
    expected.extend(vec![
        PortAction::Out8 { port: ATA_PRIMARY_ERR, value: 0 },
        PortAction::Out8 { port: ATA_PRIMARY_COUNT, value: 1 },
        PortAction::Out8 { port: ATA_PRIMARY_LBA_LO, value: 0x56 },
        PortAction::Out8 { port: ATA_PRIMARY_LBA_MID, value: 0x34 },
        PortAction::Out8 { port: ATA_PRIMARY_LBA_HI, value: 0x12 },
        PortAction::Out8 { port: ATA_PRIMARY_CMD, value: 0x20 },
    ]);
    expected.extend(settle());
    expected.push(PortAction::In8 { port: ATA_PRIMARY_STATUS });
    expected.extend(vec![PortAction::In16 { port: ATA_PRIMARY_DATA }; 256]);
    assert_eq!(log, expected);
    let bytes = t.sector_bytes();
    assert_eq!(bytes.len(), 512);
    let want: Vec<u8> = (0..512).map(|i| i as u8).collect();
    assert_eq!(bytes, want);
    assert_eq!(t.words_in().len(), 256);
}

#[test]
fn read_of_beta_uses_the_secondary_channel() {
    let mut a = read_sector(DRIVE_ALPHA, 0x0500_0000);
    let mut b = read_sector(DRIVE_BETA, 0x0500_0000);
    assert_eq!(a.action(), PortAction::Out8 { port: ATA_PRIMARY_DRIVE, value: 0xE5 });
    assert_eq!(b.action(), PortAction::Out8 { port: ATA_SECONDARY_BASE + 6, value: 0xE5 });
    let mut ch = FakeChannel::new(vec![READY_DRQ]);
    assert!(run_transfer(&mut a, &mut ch).0);
    let mut ch = FakeChannel::secondary(vec![READY_DRQ]);
    let (ok, log) = run_transfer(&mut b, &mut ch);
    assert!(ok);
    assert_eq!(log[11], PortAction::Out8 { port: 0x177, value: 0x20 });
    assert_eq!(log.last(), Some(&PortAction::In16 { port: 0x170 }));
    assert_eq!(b.sector_bytes(), (0..512).map(|i| i as u8).collect::<Vec<u8>>());
}

#[test]
fn write_of_beta_touches_only_secondary_registers() {
    let buf: Vec<u8> = (0..512).map(|i| (i % 13) as u8).collect();
    let mut t = write_sector(DRIVE_BETA, 0x0000_0042, &buf);
    let mut ch = FakeChannel::secondary(vec![READY_DRQ]);
    let (ok, log) = run_transfer(&mut t, &mut ch);
    assert!(ok);
    assert_eq!(log[0], PortAction::Out8 { port: 0x176, value: 0xE0 });
    assert_eq!(log[1], PortAction::In8 { port: 0x376 });
    assert_eq!(log[8], PortAction::Out8 { port: 0x173, value: 0x42 });
    assert_eq!(log[11], PortAction::Out8 { port: 0x177, value: 0x30 });
    let sent: Vec<u16> = log
        .iter()
        .filter_map(|a| match a {
            PortAction::Out16 { port: 0x170, value } => Some(*value),
            _ => None,
        })
        .collect();
    assert_eq!(sent, sector_to_words(&buf));
    let n = log.len();
    assert_eq!(log[n - 2], PortAction::Out8 { port: 0x177, value: 0xE7 });
}

#[test]
fn unknown_drive_id_falls_back_to_the_primary_channel() {
    let t = read_sector(9, 3);
    assert_eq!(t.action(), PortAction::Out8 { port: ATA_PRIMARY_DRIVE, value: 0xE0 });
}

#[test]
fn probe_of_beta_selects_the_secondary_master() {
    let mut t = detect_drive(DRIVE_BETA);
    let mut ch = FakeChannel::secondary(vec![READY_DRQ]);
    let (ok, log) = run_transfer(&mut t, &mut ch);
    assert!(ok);
    assert_eq!(log[0], PortAction::Out8 { port: 0x176, value: 0xA0 });
    assert_eq!(log[5], PortAction::Out8 { port: 0x376, value: 0x04 });
    assert!(log.contains(&PortAction::Out8 { port: 0x177, value: 0xEC }));
}

#[test]
fn busy_status_makes_the_wait_pause_and_poll_again() {
    let mut t = read_sector(DRIVE_ALPHA, 1);
    let mut ch = FakeChannel::new(vec![0x80, 0x80, 0xD0, READY_DRQ]);
    let (ok, log) = run_transfer(&mut t, &mut ch);
    assert!(ok);
    let status = PortAction::In8 { port: ATA_PRIMARY_STATUS };
    assert_eq!(&log[5..12], &[status, PortAction::Pause, status, PortAction::Pause, status, PortAction::Pause, status][..]);
    assert_eq!(log[12], PortAction::Out8 { port: ATA_PRIMARY_ERR, value: 0 });
}

#[test]
fn read_fails_on_error_status() {
    let mut t = read_sector(DRIVE_ALPHA, 9);
    // Idle for the busy wait, then ERR while waiting for DRQ.
    let mut ch = FakeChannel::new(vec![0x50, 0x51]);
    let (ok, log) = run_transfer(&mut t, &mut ch);
    assert!(!ok);
    assert!(t.has_failed());
    assert!(!log.contains(&PortAction::In16 { port: ATA_PRIMARY_DATA }));
    assert!(t.words_in().is_empty());
}

#[test]
fn read_fails_on_drive_fault() {
    let mut t = read_sector(DRIVE_ALPHA, 9);
    let mut ch = FakeChannel::new(vec![0x50, 0x70]);
    let (ok, _) = run_transfer(&mut t, &mut ch);
    assert!(!ok);
}

#[test]
fn data_wait_polls_until_drq() {
    let mut t = read_sector(DRIVE_ALPHA, 9);
    let mut ch = FakeChannel::new(vec![0x50, 0x50, 0x50, READY_DRQ]);
    let (ok, log) = run_transfer(&mut t, &mut ch);
    assert!(ok);
    assert_eq!(log.iter().filter(|a| **a == PortAction::Pause).count(), 2);
}

#[test]
fn write_sends_the_buffer_and_flushes() {
    let buf: Vec<u8> = (0..512).map(|i| (255 - i % 256) as u8).collect();
    let mut t = write_sector(DRIVE_ALPHA, 0x0000_0102, &buf);
    let mut ch = FakeChannel::new(vec![READY_DRQ]);
    let (ok, log) = run_transfer(&mut t, &mut ch);
    assert!(ok);
    assert_eq!(log[0], PortAction::Out8 { port: ATA_PRIMARY_DRIVE, value: 0xE0 });
    assert_eq!(log[8], PortAction::Out8 { port: ATA_PRIMARY_LBA_LO, value: 0x02 });
    assert_eq!(log[9], PortAction::Out8 { port: ATA_PRIMARY_LBA_MID, value: 0x01 });
    assert_eq!(log[11], PortAction::Out8 { port: ATA_PRIMARY_CMD, value: 0x30 });
    let sent: Vec<u16> = log
        .iter()
        .filter_map(|a| match a {
            PortAction::Out16 { port, value } if *port == ATA_PRIMARY_DATA => Some(*value),
            _ => None,
        })
        .collect();
    assert_eq!(sent, sector_to_words(&buf));
    assert_eq!(words_to_sector(&sent), buf);
    let n = log.len();
    assert_eq!(log[n - 2], PortAction::Out8 { port: ATA_PRIMARY_CMD, value: 0xE7 });
    assert_eq!(log[n - 1], PortAction::In8 { port: ATA_PRIMARY_STATUS });
}

#[test]
fn write_fails_when_drive_never_asks_for_data() {
    let buf = vec![0u8; 512];
    let mut t = write_sector(DRIVE_ALPHA, 0, &buf);
    let mut ch = FakeChannel::new(vec![0x50, 0x21]);
    let (ok, log) = run_transfer(&mut t, &mut ch);
    assert!(!ok);
    assert!(log.iter().all(|a| !matches!(a, PortAction::Out16 { .. })));
}

#[test]
fn probe_finds_an_ata_drive() {
    let mut t = detect_drive(DRIVE_ALPHA);
    let mut ch = FakeChannel::new(vec![READY_DRQ]);
    let (ok, log) = run_transfer(&mut t, &mut ch);
    assert!(ok);
    assert_eq!(log[0], PortAction::Out8 { port: ATA_PRIMARY_DRIVE, value: SELECT_MASTER });
    assert_eq!(log[5], PortAction::Out8 { port: ATA_PRIMARY_CTRL, value: 0x04 });
    assert_eq!(log[10], PortAction::Out8 { port: ATA_PRIMARY_CTRL, value: 0x00 });
    assert!(log.contains(&PortAction::Out8 { port: ATA_PRIMARY_CMD, value: 0xEC }));
    assert_eq!(t.words_in().len(), 256);
}

#[test]
fn probe_rejects_missing_drive() {
    let mut t = detect_drive(DRIVE_BETA);
    let mut ch = FakeChannel::secondary(vec![0]);
    let (ok, log) = run_transfer(&mut t, &mut ch);
    assert!(!ok);
    assert!(!log.contains(&PortAction::In8 { port: ATA_SECONDARY_BASE + 4 }));
}

#[test]
fn probe_rejects_packet_device() {
    let mut t = detect_drive(DRIVE_ALPHA);
    let mut ch = FakeChannel::new(vec![READY_DRQ]);
    ch.mid = 0x14;
    ch.hi = 0xEB;
    let (ok, log) = run_transfer(&mut t, &mut ch);
    assert!(!ok);
    assert_eq!(log.last(), Some(&PortAction::In8 { port: ATA_PRIMARY_LBA_HI }));
}

#[test]
fn probe_rejects_error_status_after_identify() {
    let mut t = detect_drive(DRIVE_ALPHA);
    // Idle during the reset wait, then ERR on the status read after IDENTIFY.
    let mut ch = FakeChannel::new(vec![0x50, 0x51, 0x50]);
    let (ok, log) = run_transfer(&mut t, &mut ch);
    assert!(!ok);
    assert!(!log.contains(&PortAction::In8 { port: ATA_PRIMARY_LBA_MID }));
}

#[test]
fn probe_goes_on_when_drq_never_shows() {
    let mut t = detect_drive(DRIVE_ALPHA);
    let mut ch = FakeChannel::new(vec![0x50]);
    let (ok, log) = run_transfer(&mut t, &mut ch);
    assert!(ok);
    let status_reads = log.iter().filter(|a| **a == PortAction::In8 { port: ATA_PRIMARY_STATUS }).count();
    // reset wait, presence check, one busy poll, then the 100 DRQ polls
    assert_eq!(status_reads, 1 + 1 + 1 + 100);
}

#[test]
fn detection_counts_both_drives() {
    let mut d = ata_detect();
    assert_eq!(get_disk_count(&d), 0);
    let mut alpha = FakeChannel::new(vec![READY_DRQ]);
    let mut beta = FakeChannel::secondary(vec![READY_DRQ]);
    assert!(run_detection(&mut d, &mut alpha, &mut beta));
    assert!(d.is_finished());
    assert_eq!(get_disk_count(&d), 2);
}

#[test]
fn detection_counts_one_drive() {
    let mut d = ata_detect();
    let mut alpha = FakeChannel::new(vec![READY_DRQ]);
    let mut beta = FakeChannel::secondary(vec![0]);
    assert!(run_detection(&mut d, &mut alpha, &mut beta));
    assert_eq!(get_disk_count(&d), 1);

    let mut d = ata_detect();
    let mut alpha = FakeChannel::new(vec![0]);
    let mut beta = FakeChannel::secondary(vec![READY_DRQ]);
    assert!(run_detection(&mut d, &mut alpha, &mut beta));
    assert_eq!(get_disk_count(&d), 1);
}

#[test]
fn detection_without_drives_reports_failure() {
    let mut d = ata_detect();
    let mut alpha = FakeChannel::new(vec![0]);
    let mut beta = FakeChannel::secondary(vec![0]);
    assert!(!run_detection(&mut d, &mut alpha, &mut beta));
    assert_eq!(get_disk_count(&d), 0);
    assert_eq!(d.action(), PortAction::Finish { ok: false });
}

#[test]
fn finished_transfer_accepts_no_input() {
    let mut t = detect_drive(DRIVE_ALPHA);
    let mut ch = FakeChannel::new(vec![0]);
    let _ = run_transfer(&mut t, &mut ch);
    assert!(t.is_finished());
    assert!(!t.accepts(PortInput::Done));
    assert!(!t.accepts(PortInput::Byte(0)));
}

#[test]
fn transfer_rejects_mismatched_input() {
    let t = read_sector(DRIVE_ALPHA, 0);
    assert!(t.accepts(PortInput::Done));
    assert!(!t.accepts(PortInput::Byte(1)));
    assert!(!t.accepts(PortInput::Word(1)));
}

fn port_of(a: &PortAction) -> Option<u16> {
    match *a {
        PortAction::Out8 { port, .. } | PortAction::Out16 { port, .. } => Some(port),
        PortAction::In8 { port } | PortAction::In16 { port } => Some(port),
        _ => None,
    }
}

fn on_primary(a: &PortAction) -> bool {
    port_of(a).map_or(true, |p| (0x1F0..=0x1F7).contains(&p) || p == 0x3F6)
}

fn on_secondary(a: &PortAction) -> bool {
    port_of(a).map_or(true, |p| (0x170..=0x177).contains(&p) || p == 0x376)
}

#[test]
fn transactions_touch_only_their_channel_ports() {
    let mut t = read_sector(DRIVE_ALPHA, 77);
    let (_, log) = run_transfer(&mut t, &mut FakeChannel::new(vec![0x80, READY_DRQ]));
    assert!(log.iter().all(on_primary));
    let mut t = write_sector(DRIVE_ALPHA, 77, &[1u8; 512]);
    let (_, log) = run_transfer(&mut t, &mut FakeChannel::new(vec![READY_DRQ]));
    assert!(log.iter().all(on_primary));
    let mut t = read_sector(DRIVE_BETA, 77);
    let (_, log) = run_transfer(&mut t, &mut FakeChannel::secondary(vec![0x80, READY_DRQ]));
    assert!(log.iter().all(on_secondary));
    let mut t = write_sector(DRIVE_BETA, 77, &[1u8; 512]);
    let (_, log) = run_transfer(&mut t, &mut FakeChannel::secondary(vec![READY_DRQ]));
    assert!(log.iter().all(on_secondary));
    let mut t = detect_drive(DRIVE_BETA);
    let (_, log) = run_transfer(&mut t, &mut FakeChannel::secondary(vec![READY_DRQ]));
    assert!(log.iter().all(on_secondary));
}

#[test]
fn write_addresses_high_lba_bits_in_select_byte() {
    let mut t = write_sector(DRIVE_ALPHA, 0x0ABC_DEF0, &[0u8; 512]);
    let (ok, log) = run_transfer(&mut t, &mut FakeChannel::new(vec![READY_DRQ]));
    assert!(ok);
    assert_eq!(log[0], PortAction::Out8 { port: ATA_PRIMARY_DRIVE, value: 0xEA });
    assert_eq!(log[8], PortAction::Out8 { port: ATA_PRIMARY_LBA_LO, value: 0xF0 });
    assert_eq!(log[9], PortAction::Out8 { port: ATA_PRIMARY_LBA_MID, value: 0xDE });
    assert_eq!(log[10], PortAction::Out8 { port: ATA_PRIMARY_LBA_HI, value: 0xBC });
}

#[test]
fn transactions_stay_within_their_step_bounds() {
    let mut t = read_sector(DRIVE_BETA, 5);
    let (_, log) = run_transfer(&mut t, &mut FakeChannel::secondary(vec![0x80, 0x80, READY_DRQ]));
    assert_eq!(log.len(), 1 + 4 + 5 + 6 + 4 + 1 + 256);
    assert!(log.len() <= 400_000_275);
    let mut t = write_sector(DRIVE_ALPHA, 5, &[0u8; 512]);
    let (_, log) = run_transfer(&mut t, &mut FakeChannel::new(vec![READY_DRQ]));
    assert_eq!(log.len(), 1 + 4 + 1 + 6 + 4 + 1 + 256 + 1 + 1);
    assert!(log.len() <= 600_000_278);
}
