//! Drive detection of Alpha (primary master) and Beta (secondary master),
//! and the count of drives found.

use vstd::prelude::*;
use crate::plan::{detect_drive, identify_stages, lemma_identify_start_wf, lemma_plan_step_bounds};
use crate::registers::{drive_channel, DRIVE_ALPHA, DRIVE_BETA};
use crate::transfer::{
    lemma_after_wf, lemma_steps_bound, transfer_start, PortAction, PortInput, Transfer,
    TransferView,
};

verus! {

/// Number of drives that detection probes.
pub const PROBED_DRIVES: usize = 2;

/// The drive of the `probe`-th probe: Alpha (primary master), then Beta
/// (secondary master).
pub open spec fn probe_drive(probe: nat) -> u8 {
    if probe == 0 {
        DRIVE_ALPHA
    } else {
        DRIVE_BETA
    }
}

/// Number of `true` entries.
pub open spec fn count_present(found: Seq<bool>) -> nat
    decreases found.len(),
{
    if found.len() == 0 {
        0
    } else {
        count_present(found.drop_last()) + if found.last() { 1nat } else { 0 }
    }
}

/// The abstract state of a detection run.
pub struct DetectionView {
    /// Index of the probe under way; 2 once both drives were probed.
    pub probe: nat,
    /// Drives found so far.
    pub disks: nat,
    /// For each finished probe, whether it found a drive.
    pub found: Seq<bool>,
    /// The probe transaction under way (the last one once detection ended).
    pub current: TransferView,
}

/// A fresh detection run: the count is reset to 0 and the first disk is
/// probed.
pub open spec fn detection_start() -> DetectionView {
    DetectionView {
        probe: 0,
        disks: 0,
        found: Seq::empty(),
        current: transfer_start(drive_channel(DRIVE_ALPHA), identify_stages(DRIVE_ALPHA), Seq::empty()),
    }
}

impl DetectionView {
    /// Both drives have been probed.
    pub open spec fn finished(self) -> bool {
        self.probe >= PROBED_DRIVES
    }

    /// Well-formedness: the count matches the probes that found a drive, and
    /// while a probe runs its transaction is the identification of the drive
    /// it stands for.
    pub open spec fn wf(self) -> bool {
        &&& self.probe <= PROBED_DRIVES
        &&& self.found.len() == self.probe
        &&& self.disks == count_present(self.found)
        &&& self.current.wf()
        &&& !self.finished() ==> {
            &&& !self.current.finished()
            &&& self.current.stages == identify_stages(probe_drive(self.probe))
            &&& self.current.channel == drive_channel(probe_drive(self.probe))
            &&& self.current.words_out.len() == 0
        }
    }

    /// The action asked for: the running probe's, or the end of detection,
    /// successful when at least one drive was found.
    pub open spec fn action(self) -> PortAction {
        if self.finished() {
            PortAction::Finish { ok: self.disks > 0 }
        } else {
            self.current.action()
        }
    }

    /// `input` is what performing `self.action()` gives back.
    pub open spec fn accepts(self, input: PortInput) -> bool {
        !self.finished() && self.current.accepts(input)
    }

    /// The state after the caller performed `self.action()` and got `input`:
    /// the probe steps; when it ends, its result is counted and the next
    /// drive's probe starts.
    pub open spec fn after(self, input: PortInput) -> DetectionView {
        let t = self.current.after(input);
        if !t.finished() {
            DetectionView { current: t, ..self }
        } else {
            let present = !t.failed;
            let disks = self.disks + if present { 1nat } else { 0 };
            let found = self.found.push(present);
            if self.probe == 0 {
                DetectionView {
                    probe: 1,
                    disks,
                    found,
                    current: transfer_start(drive_channel(DRIVE_BETA), identify_stages(DRIVE_BETA), Seq::empty()),
                }
            } else {
                DetectionView { probe: 2, disks, found, current: t }
            }
        }
    }
}

/// A drive detection run over the first and the second disk.
pub struct Detection {
    probe: usize,
    disks: usize,
    found: Ghost<Seq<bool>>,
    current: Transfer,
}

impl View for Detection {
    type V = DetectionView;

    closed spec fn view(&self) -> DetectionView {
        DetectionView {
            probe: self.probe as nat,
            disks: self.disks as nat,
            found: self.found@,
            current: self.current@,
        }
    }
}

proof fn lemma_count_present_bound(found: Seq<bool>)
    ensures
        count_present(found) <= found.len(),
    decreases found.len(),
{
    if found.len() > 0 {
        lemma_count_present_bound(found.drop_last());
    }
}

/// Starts drive detection: the drive count goes back to 0 and the first disk
/// is probed, then the second.
pub fn ata_detect() -> (d: Detection)
    ensures
        d@ == detection_start(),
        d.wf(),
{
    Detection { probe: 0, disks: 0, found: Ghost(Seq::empty()), current: detect_drive(DRIVE_ALPHA) }
}

/// The number of drives that detection has found so far.
pub fn get_disk_count(detection: &Detection) -> (n: usize)
    ensures
        n == detection@.disks,
{
    detection.disks
}

impl Detection {
    /// Well-formedness of a detection run.
    pub open spec fn wf(&self) -> bool {
        self@.wf()
    }

    /// The action the caller performs next.
    pub fn action(&self) -> (a: PortAction)
        requires
            self.wf(),
        ensures
            a == self@.action(),
    {
        if self.probe >= PROBED_DRIVES {
            PortAction::Finish { ok: self.disks > 0 }
        } else {
            self.current.action()
        }
    }

    /// Whether `input` is what performing the current action gives back.
    pub fn accepts(&self, input: PortInput) -> (b: bool)
        requires
            self.wf(),
        ensures
            b == self@.accepts(input),
    {
        self.probe < PROBED_DRIVES && self.current.accepts(input)
    }

    /// Whether both drives have been probed.
    pub fn is_finished(&self) -> (b: bool)
        ensures
            b == self@.finished(),
    {
        self.probe >= PROBED_DRIVES
    }

    /// Feeds back what performing the current action gave; the run moves to
    /// the state that `DetectionView::after` names.
    pub fn advance(&mut self, input: PortInput)
        requires
            old(self).wf(),
            old(self)@.accepts(input),
        ensures
            final(self)@ == old(self)@.after(input),
            final(self).wf(),
    {
        proof {
            lemma_detection_after_wf(self@, input);
        }
        self.current.advance(input);
        if self.current.is_finished() {
            let present = !self.current.has_failed();
            proof {
                lemma_count_present_bound(self.found@);
            }
            if present {
                self.disks = self.disks + 1;
            }
            self.found = Ghost(self.found@.push(present));
            if self.probe == 0 {
                self.probe = 1;
                self.current = detect_drive(DRIVE_BETA);
            } else {
                self.probe = 2;
            }
        }
    }
}

/// Every step of a well-formed detection run leads to a well-formed state.
pub proof fn lemma_detection_after_wf(v: DetectionView, input: PortInput)
    requires
        v.wf(),
        v.accepts(input),
    ensures
        v.after(input).wf(),
{
    lemma_after_wf(v.current, input);
    let t = v.current.after(input);
    let w = v.after(input);
    if t.finished() {
        let found = v.found.push(!t.failed);
        assert(found.drop_last() =~= v.found);
        if v.probe == 0 {
            lemma_identify_start_wf(DRIVE_BETA);
        }
    }
}

/// When detection has ended, both drives were probed, the drive count is
/// the number of probes that found a drive, and detection reports success
/// exactly when one of them did.
pub proof fn lemma_detection_result(v: DetectionView)
    requires
        v.wf(),
        v.finished(),
    ensures
        v.found.len() == 2,
        v.disks == (if v.found[0] { 1nat } else { 0 }) + (if v.found[1] { 1nat } else { 0 }),
        v.action() == (PortAction::Finish { ok: v.found[0] || v.found[1] }),
{
    reveal_with_fuel(count_present, 3);
    assert(v.found.drop_last().drop_last() =~= Seq::<bool>::empty());
}

impl DetectionView {
    /// Most steps left before detection ends: those of the running probe,
    /// plus a whole probe of Beta while Alpha's runs.
    pub open spec fn steps_left(self) -> nat {
        if self.finished() {
            0
        } else {
            self.current.steps_left() + if self.probe == 0 { 2_000_000_503nat } else { 0 }
        }
    }
}

/// Detection ends: each step either ends it or lowers the number of steps
/// left, and a fresh run takes at most 4_000_001_006 port accesses and
/// pauses in all.
pub proof fn lemma_detection_steps(v: DetectionView, input: PortInput)
    requires
        v.wf(),
        v.accepts(input),
    ensures
        v.after(input).finished() || v.after(input).steps_left() < v.steps_left(),
        detection_start().steps_left() == 4_000_001_006,
{
    lemma_steps_bound(v.current, input);
    lemma_plan_step_bounds(DRIVE_ALPHA, 0, Seq::new(512, |i: int| 0u8));
    lemma_plan_step_bounds(DRIVE_BETA, 0, Seq::new(512, |i: int| 0u8));
    lemma_identify_start_wf(DRIVE_ALPHA);
}

} // verus!
