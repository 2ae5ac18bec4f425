# ata

A polled ATA PIO driver (28-bit LBA; drive Alpha is the primary master,
drive Beta the secondary master) whose logic is a
set of Verus-verified state machines.

- `src/registers.rs`: port addresses, status bits, commands, LBA offsets, the
  channel of each drive and the encoding of a sector address into the task-file registers.
- `src/sector.rs`: packing sector bytes into data-register words and back.
- `src/transfer.rs`: the machine that runs one transaction stage by stage,
  naming one port action at a time and deciding from each port answer.
- `src/plan.rs`: the stages of a sector read, a sector write and a drive probe.
- `src/detect.rs`: detection of both drives and the drive count.
- `app/lib.rs`: the port I/O (`in`/`out` instructions) that performs the
  machines' actions on the hardware.
