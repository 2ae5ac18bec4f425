//! The port-level state machine that runs one ATA transaction.
//!
//! A transaction is a list of stages (register writes, settling reads, status
//! waits, data transfers). The machine names one port action at a time; the
//! caller performs it and hands back what the port returned, and the machine
//! decides what comes next, until it reports that the transaction succeeded
//! or failed.

use vstd::prelude::*;
use crate::sector::{bytes_of_words, words_to_sector};
use crate::registers::{
    channel_register, reg, valid_channel, Channel, ATA_STATUS_BSY, ATA_STATUS_DF, ATA_STATUS_DRQ,
    ATA_STATUS_ERR, POLL_TIMEOUT, REG_COMMAND, REG_DATA, REG_LBA_HI, REG_LBA_MID,
};

verus! {

/// One step of a transaction.
#[derive(Clone, Copy, Debug, PartialEq, Eq, Structural)]
pub enum Stage {
    /// Write `value` to the 8-bit register at `port`.
    Out8 { port: u16, value: u8 },
    /// Read the 8-bit register at `port` and ignore the value (part of the
    /// settling delay after a register write).
    Discard8 { port: u16 },
    /// Poll the status register until BSY is clear, pausing between busy
    /// reads; the transaction fails once more than `POLL_TIMEOUT` reads in a
    /// row have seen BSY.
    WaitNotBusy,
    /// Up to `attempts` rounds of the busy wait above. The stage ends with the
    /// first round that sees BSY clear, or after the last round timed out; it
    /// never fails the transaction.
    WaitNotBusyRetried { attempts: u32 },
    /// Poll the status register until DRQ is set, pausing between reads; the
    /// transaction fails on ERR, on DF, or once more than `POLL_TIMEOUT`
    /// reads have seen none of ERR, DF and DRQ.
    WaitDataRequest,
    /// Read the status register once; the transaction fails if it reads 0
    /// (no drive), otherwise the value is kept for the error check below.
    CheckPresence,
    /// Read the status register at most `reads` times, stopping once BSY is
    /// clear; then the transaction fails if the status kept by
    /// `CheckPresence` had ERR set.
    PollNotBusy { reads: u32 },
    /// Read the LBA-mid and LBA-high registers; the transaction fails if they
    /// hold the packet-device signature 0x14, 0xEB.
    CheckSignature,
    /// Read the status register at most `reads` times, stopping once DRQ is
    /// set; a read that sees ERR (and not DRQ) fails the transaction.
    PollDataRequest { reads: u32 },
    /// Read `count` words from the data register.
    ReadWords { count: u32 },
    /// Write the transaction's outgoing words to the data register, in order.
    WriteWords,
}

/// What the machine asks its caller to do next.
#[allow(inconsistent_fields)]
#[derive(Clone, Copy, Debug, PartialEq, Eq, Structural)]
pub enum PortAction {
    /// Write a byte to a port.
    Out8 { port: u16, value: u8 },
    /// Write a word to a port.
    Out16 { port: u16, value: u16 },
    /// Read a byte from a port.
    In8 { port: u16 },
    /// Read a word from a port.
    In16 { port: u16 },
    /// Spin-loop hint between two status reads.
    Pause,
    /// The transaction is over; `ok` tells whether it succeeded.
    Finish { ok: bool },
}

/// What the caller hands back after performing an action.
#[derive(Clone, Copy, Debug, PartialEq, Eq, Structural)]
pub enum PortInput {
    /// A write or a pause was performed.
    Done,
    /// The byte that an 8-bit read returned.
    Byte(u8),
    /// The word that a 16-bit read returned.
    Word(u16),
}

/// The abstract state of a transaction.
pub struct TransferView {
    /// The channel whose status, signature and data registers the waits,
    /// checks and data stages use.
    pub channel: Channel,
    /// The stages of the transaction.
    pub stages: Seq<Stage>,
    /// Index of the current stage; the transaction has ended once it reaches
    /// the number of stages.
    pub at: nat,
    /// Progress inside the current stage: busy reads seen by a wait, status
    /// reads done by a bounded poll, registers read by the signature check,
    /// or words moved by a data stage.
    pub polls: nat,
    /// Rounds of a retried busy wait that have timed out.
    pub attempts_used: nat,
    /// A pause is due before the next status read of a wait.
    pub pausing: bool,
    /// The status read by `CheckPresence`.
    pub status: u8,
    /// The LBA-mid byte read by `CheckSignature`.
    pub signature_mid: u8,
    /// Words read from the data register so far.
    pub words_in: Seq<u16>,
    /// Words that `WriteWords` sends.
    pub words_out: Seq<u16>,
    /// The transaction has failed.
    pub failed: bool,
}

/// Number of data words that the `ReadWords` stages among `s` read in all.
pub open spec fn words_read_by(s: Seq<Stage>) -> nat
    decreases s.len(),
{
    if s.len() == 0 {
        0
    } else {
        words_read_by(s.drop_last()) + match s.last() {
            Stage::ReadWords { count } => count as nat,
            _ => 0,
        }
    }
}

/// A stage whose parameters let it run: bounded loops run at least once and
/// a data write has something to send.
pub open spec fn stage_ok(st: Stage, words_out_len: nat) -> bool {
    match st {
        Stage::WaitNotBusyRetried { attempts } => attempts > 0,
        Stage::PollNotBusy { reads } => reads > 0,
        Stage::PollDataRequest { reads } => reads > 0,
        Stage::ReadWords { count } => count > 0,
        Stage::WriteWords => 0 < words_out_len <= usize::MAX,
        _ => true,
    }
}

/// The fresh state of a transaction with the given stages and outgoing words.
pub open spec fn transfer_start(channel: Channel, stages: Seq<Stage>, words_out: Seq<u16>) -> TransferView {
    TransferView {
        channel,
        stages,
        at: 0,
        polls: 0,
        attempts_used: 0,
        pausing: false,
        status: 0,
        signature_mid: 0,
        words_in: Seq::empty(),
        words_out,
        failed: false,
    }
}

impl TransferView {
    /// The transaction has ended, by failure or by running all its stages.
    pub open spec fn finished(self) -> bool {
        self.failed || self.at >= self.stages.len()
    }

    /// The current stage (meaningful while the transaction runs).
    pub open spec fn stage(self) -> Stage {
        self.stages[self.at as int]
    }

    /// Words read so far by the stages before the current one and by the
    /// current one.
    pub open spec fn words_expected(self) -> nat {
        words_read_by(self.stages.take(self.at as int)) + match self.stage() {
            Stage::ReadWords { .. } => self.polls,
            _ => 0,
        }
    }

    /// Well-formedness: every stage can run, the counters of the current
    /// stage are within its bounds, and the words read match the stages run.
    pub open spec fn wf(self) -> bool {
        &&& valid_channel(self.channel)
        &&& self.at <= self.stages.len()
        &&& forall|i: int| 0 <= i < self.stages.len() ==> #[trigger] stage_ok(self.stages[i], self.words_out.len())
        &&& !self.finished() ==> match self.stage() {
            Stage::WaitNotBusy => self.polls <= POLL_TIMEOUT,
            Stage::WaitDataRequest => self.polls <= POLL_TIMEOUT,
            Stage::WaitNotBusyRetried { attempts } => self.polls <= POLL_TIMEOUT && self.attempts_used < attempts,
            Stage::PollNotBusy { reads } => self.polls < reads,
            Stage::PollDataRequest { reads } => self.polls < reads,
            Stage::CheckSignature => self.polls < 2,
            Stage::ReadWords { count } => self.polls < count,
            Stage::WriteWords => self.polls < self.words_out.len(),
            _ => self.polls == 0,
        }
        &&& !self.finished() ==> self.words_in.len() == self.words_expected()
        &&& (self.at == self.stages.len() && !self.failed) ==> self.words_in.len() == words_read_by(self.stages)
        &&& self.words_in.len() <= words_read_by(self.stages)
        &&& 2 * words_read_by(self.stages) <= usize::MAX
    }

    /// The action the machine asks for in this state.
    pub open spec fn action(self) -> PortAction {
        if self.finished() {
            PortAction::Finish { ok: !self.failed }
        } else {
            match self.stage() {
                Stage::Out8 { port, value } => PortAction::Out8 { port, value },
                Stage::Discard8 { port } => PortAction::In8 { port },
                Stage::WaitNotBusy => self.wait_action(),
                Stage::WaitNotBusyRetried { .. } => self.wait_action(),
                Stage::WaitDataRequest => self.wait_action(),
                Stage::CheckPresence => PortAction::In8 { port: reg(self.channel, REG_COMMAND) },
                Stage::PollNotBusy { .. } => PortAction::In8 { port: reg(self.channel, REG_COMMAND) },
                Stage::CheckSignature => PortAction::In8 {
                    port: if self.polls == 0 { reg(self.channel, REG_LBA_MID) } else { reg(self.channel, REG_LBA_HI) },
                },
                Stage::PollDataRequest { .. } => PortAction::In8 { port: reg(self.channel, REG_COMMAND) },
                Stage::ReadWords { .. } => PortAction::In16 { port: reg(self.channel, REG_DATA) },
                Stage::WriteWords => PortAction::Out16 {
                    port: reg(self.channel, REG_DATA),
                    value: self.words_out[self.polls as int],
                },
            }
        }
    }

    /// In a status wait: a pause if one is due, else a status read.
    pub open spec fn wait_action(self) -> PortAction {
        if self.pausing {
            PortAction::Pause
        } else {
            PortAction::In8 { port: reg(self.channel, REG_COMMAND) }
        }
    }

    /// `input` is what performing `self.action()` gives back.
    pub open spec fn accepts(self, input: PortInput) -> bool {
        match self.action() {
            PortAction::Out8 { .. } => input is Done,
            PortAction::Out16 { .. } => input is Done,
            PortAction::Pause => input is Done,
            PortAction::In8 { .. } => input is Byte,
            PortAction::In16 { .. } => input is Word,
            PortAction::Finish { .. } => false,
        }
    }

    /// Moves on to the next stage, with the stage counters reset.
    pub open spec fn next_stage(self) -> TransferView {
        TransferView { at: self.at + 1, polls: 0, attempts_used: 0, pausing: false, ..self }
    }

    /// Ends the transaction with a failure.
    pub open spec fn fail(self) -> TransferView {
        TransferView { failed: true, ..self }
    }

    /// One more busy read seen by a wait, followed by a pause.
    pub open spec fn busy_again(self) -> TransferView {
        TransferView { polls: self.polls + 1, pausing: true, ..self }
    }

    /// The state after the caller performed `self.action()` and got `input`.
    pub open spec fn after(self, input: PortInput) -> TransferView {
        let s: u8 = match input {
            PortInput::Byte(b) => b,
            _ => 0,
        };
        match self.stage() {
            Stage::Out8 { .. } => self.next_stage(),
            Stage::Discard8 { .. } => self.next_stage(),
            Stage::WaitNotBusy => if self.pausing {
                TransferView { pausing: false, ..self }
            } else if s & ATA_STATUS_BSY == 0 {
                self.next_stage()
            } else if self.polls + 1 > POLL_TIMEOUT {
                self.fail()
            } else {
                self.busy_again()
            },
            Stage::WaitNotBusyRetried { attempts } => if self.pausing {
                TransferView { pausing: false, ..self }
            } else if s & ATA_STATUS_BSY == 0 {
                self.next_stage()
            } else if self.polls + 1 > POLL_TIMEOUT {
                if self.attempts_used + 1 >= attempts {
                    self.next_stage()
                } else {
                    TransferView { polls: 0, attempts_used: self.attempts_used + 1, ..self }
                }
            } else {
                self.busy_again()
            },
            Stage::WaitDataRequest => if self.pausing {
                TransferView { pausing: false, ..self }
            } else if s & ATA_STATUS_ERR != 0 {
                self.fail()
            } else if s & ATA_STATUS_DF != 0 {
                self.fail()
            } else if s & ATA_STATUS_DRQ != 0 {
                self.next_stage()
            } else if self.polls + 1 > POLL_TIMEOUT {
                self.fail()
            } else {
                self.busy_again()
            },
            Stage::CheckPresence => if s == 0 {
                self.fail()
            } else {
                TransferView { status: s, ..self.next_stage() }
            },
            Stage::PollNotBusy { reads } => if s & ATA_STATUS_BSY == 0 || self.polls + 1 >= reads {
                if self.status & ATA_STATUS_ERR != 0 {
                    self.fail()
                } else {
                    self.next_stage()
                }
            } else {
                TransferView { polls: self.polls + 1, ..self }
            },
            Stage::CheckSignature => if self.polls == 0 {
                TransferView { signature_mid: s, polls: 1, ..self }
            } else if self.signature_mid == 0x14 && s == 0xEB {
                self.fail()
            } else {
                self.next_stage()
            },
            Stage::PollDataRequest { reads } => if s & ATA_STATUS_DRQ != 0 {
                self.next_stage()
            } else if s & ATA_STATUS_ERR != 0 {
                self.fail()
            } else if self.polls + 1 >= reads {
                self.next_stage()
            } else {
                TransferView { polls: self.polls + 1, ..self }
            },
            Stage::ReadWords { count } => {
                let w: u16 = match input {
                    PortInput::Word(v) => v,
                    _ => 0,
                };
                let grown = TransferView { words_in: self.words_in.push(w), ..self };
                if self.polls + 1 >= count {
                    grown.next_stage()
                } else {
                    TransferView { polls: self.polls + 1, ..grown }
                }
            },
            Stage::WriteWords => if self.polls + 1 >= self.words_out.len() {
                self.next_stage()
            } else {
                TransferView { polls: self.polls + 1, ..self }
            },
        }
    }
}

/// A running ATA transaction.
pub struct Transfer {
    channel: Channel,
    stages: Vec<Stage>,
    at: usize,
    polls: usize,
    attempts_used: u32,
    pausing: bool,
    status: u8,
    signature_mid: u8,
    words_in: Vec<u16>,
    words_out: Vec<u16>,
    failed: bool,
}

impl View for Transfer {
    type V = TransferView;

    closed spec fn view(&self) -> TransferView {
        TransferView {
            channel: self.channel,
            stages: self.stages@,
            at: self.at as nat,
            polls: self.polls as nat,
            attempts_used: self.attempts_used as nat,
            pausing: self.pausing,
            status: self.status,
            signature_mid: self.signature_mid,
            words_in: self.words_in@,
            words_out: self.words_out@,
            failed: self.failed,
        }
    }
}

impl Transfer {
    /// Well-formedness of a running transaction.
    pub open spec fn wf(&self) -> bool {
        self@.wf()
    }

    /// Starts a transaction with the given stages and outgoing words.
    pub fn new(channel: Channel, stages: Vec<Stage>, words_out: Vec<u16>) -> (t: Transfer)
        requires
            valid_channel(channel),
            forall|i: int| 0 <= i < stages@.len() ==> #[trigger] stage_ok(stages@[i], words_out@.len()),
            2 * words_read_by(stages@) <= usize::MAX,
        ensures
            t@ == transfer_start(channel, stages@, words_out@),
            t.wf(),
    {
        let t = Transfer {
            channel,
            stages,
            at: 0,
            polls: 0,
            attempts_used: 0,
            pausing: false,
            status: 0,
            signature_mid: 0,
            words_in: Vec::new(),
            words_out,
            failed: false,
        };
        proof {
            assert(t@.stages.take(0) =~= Seq::<Stage>::empty());
            assert(t@.words_in =~= Seq::<u16>::empty());
            if t@.stages.len() == 0 {
                assert(words_read_by(t@.stages) == 0);
            } else {
                assert(stage_ok(t@.stages[0], t@.words_out.len()));
            }
        }
        t
    }

    /// The action the caller performs next.
    pub fn action(&self) -> (a: PortAction)
        requires
            self.wf(),
        ensures
            a == self@.action(),
    {
        if self.failed || self.at >= self.stages.len() {
            return PortAction::Finish { ok: !self.failed };
        }
        let status = channel_register(self.channel, REG_COMMAND);
        match self.stages[self.at] {
            Stage::Out8 { port, value } => PortAction::Out8 { port, value },
            Stage::Discard8 { port } => PortAction::In8 { port },
            Stage::WaitNotBusy | Stage::WaitNotBusyRetried { .. } | Stage::WaitDataRequest => {
                if self.pausing {
                    PortAction::Pause
                } else {
                    PortAction::In8 { port: status }
                }
            },
            Stage::CheckPresence => PortAction::In8 { port: status },
            Stage::PollNotBusy { .. } => PortAction::In8 { port: status },
            Stage::CheckSignature => {
                if self.polls == 0 {
                    PortAction::In8 { port: channel_register(self.channel, REG_LBA_MID) }
                } else {
                    PortAction::In8 { port: channel_register(self.channel, REG_LBA_HI) }
                }
            },
            Stage::PollDataRequest { .. } => PortAction::In8 { port: status },
            Stage::ReadWords { .. } => PortAction::In16 { port: channel_register(self.channel, REG_DATA) },
            Stage::WriteWords => PortAction::Out16 {
                port: channel_register(self.channel, REG_DATA),
                value: self.words_out[self.polls],
            },
        }
    }

    /// Whether `input` is what performing the current action gives back.
    pub fn accepts(&self, input: PortInput) -> (b: bool)
        requires
            self.wf(),
        ensures
            b == self@.accepts(input),
    {
        match self.action() {
            PortAction::Out8 { .. } | PortAction::Out16 { .. } | PortAction::Pause => {
                matches!(input, PortInput::Done)
            },
            PortAction::In8 { .. } => matches!(input, PortInput::Byte(_)),
            PortAction::In16 { .. } => matches!(input, PortInput::Word(_)),
            PortAction::Finish { .. } => false,
        }
    }

    /// Whether the transaction has ended.
    pub fn is_finished(&self) -> (b: bool)
        ensures
            b == self@.finished(),
    {
        self.failed || self.at >= self.stages.len()
    }

    /// Whether the transaction has failed.
    pub fn has_failed(&self) -> (b: bool)
        ensures
            b == self@.failed,
    {
        self.failed
    }

    /// The bytes that the words read so far carry, two per word, low byte
    /// first.
    pub fn sector_bytes(&self) -> (b: Vec<u8>)
        requires
            self.wf(),
        ensures
            b@ == bytes_of_words(self@.words_in),
    {
        words_to_sector(self.words_in.as_slice())
    }

    /// The words read from the data register so far.
    pub fn words_in(&self) -> (w: &Vec<u16>)
        ensures
            w@ == self@.words_in,
    {
        &self.words_in
    }

    fn next_stage(&mut self)
        requires
            old(self).at < old(self).stages.len(),
        ensures
            final(self)@ == old(self)@.next_stage(),
    {
        self.at = self.at + 1;
        self.polls = 0;
        self.attempts_used = 0;
        self.pausing = false;
    }

    /// Feeds back what performing the current action gave; the machine moves
    /// to the state that `TransferView::after` names.
    pub fn advance(&mut self, input: PortInput)
        requires
            old(self).wf(),
            !old(self)@.finished(),
            old(self)@.accepts(input),
        ensures
            final(self)@ == old(self)@.after(input),
            final(self).wf(),
    {
        proof {
            lemma_after_wf(self@, input);
        }
        let s: u8 = match input {
            PortInput::Byte(b) => b,
            _ => 0,
        };
        match self.stages[self.at] {
            Stage::Out8 { .. } | Stage::Discard8 { .. } => {
                self.next_stage();
            },
            Stage::WaitNotBusy => {
                if self.pausing {
                    self.pausing = false;
                } else if s & ATA_STATUS_BSY == 0 {
                    self.next_stage();
                } else if self.polls + 1 > POLL_TIMEOUT as usize {
                    self.failed = true;
                } else {
                    self.polls = self.polls + 1;
                    self.pausing = true;
                }
            },
            Stage::WaitNotBusyRetried { attempts } => {
                if self.pausing {
                    self.pausing = false;
                } else if s & ATA_STATUS_BSY == 0 {
                    self.next_stage();
                } else if self.polls + 1 > POLL_TIMEOUT as usize {
                    if self.attempts_used + 1 >= attempts {
                        self.next_stage();
                    } else {
                        self.polls = 0;
                        self.attempts_used = self.attempts_used + 1;
                    }
                } else {
                    self.polls = self.polls + 1;
                    self.pausing = true;
                }
            },
            Stage::WaitDataRequest => {
                if self.pausing {
                    self.pausing = false;
                } else if s & ATA_STATUS_ERR != 0 {
                    self.failed = true;
                } else if s & ATA_STATUS_DF != 0 {
                    self.failed = true;
                } else if s & ATA_STATUS_DRQ != 0 {
                    self.next_stage();
                } else if self.polls + 1 > POLL_TIMEOUT as usize {
                    self.failed = true;
                } else {
                    self.polls = self.polls + 1;
                    self.pausing = true;
                }
            },
            Stage::CheckPresence => {
                if s == 0 {
                    self.failed = true;
                } else {
                    self.status = s;
                    self.next_stage();
                }
            },
            Stage::PollNotBusy { reads } => {
                if s & ATA_STATUS_BSY == 0 || self.polls + 1 >= reads as usize {
                    if self.status & ATA_STATUS_ERR != 0 {
                        self.failed = true;
                    } else {
                        self.next_stage();
                    }
                } else {
                    self.polls = self.polls + 1;
                }
            },
            Stage::CheckSignature => {
                if self.polls == 0 {
                    self.signature_mid = s;
                    self.polls = 1;
                } else if self.signature_mid == 0x14 && s == 0xEB {
                    self.failed = true;
                } else {
                    self.next_stage();
                }
            },
            Stage::PollDataRequest { reads } => {
                if s & ATA_STATUS_DRQ != 0 {
                    self.next_stage();
                } else if s & ATA_STATUS_ERR != 0 {
                    self.failed = true;
                } else if self.polls + 1 >= reads as usize {
                    self.next_stage();
                } else {
                    self.polls = self.polls + 1;
                }
            },
            Stage::ReadWords { count } => {
                let w: u16 = match input {
                    PortInput::Word(v) => v,
                    _ => 0,
                };
                self.words_in.push(w);
                if self.polls + 1 >= count as usize {
                    self.next_stage();
                } else {
                    self.polls = self.polls + 1;
                }
            },
            Stage::WriteWords => {
                assert(stage_ok(self@.stages[self.at as int], self@.words_out.len()));
                if self.polls + 1 >= self.words_out.len() {
                    self.next_stage();
                } else {
                    self.polls = self.polls + 1;
                }
            },
        }
    }
}

/// The words read by the stages of a prefix are at most those of the whole.
pub proof fn lemma_words_read_by_prefix(s: Seq<Stage>, k: int)
    requires
        0 <= k <= s.len(),
    ensures
        words_read_by(s.take(k)) <= words_read_by(s),
    decreases s.len(),
{
    if k < s.len() {
        assert(s.take(k) =~= s.drop_last().take(k));
        lemma_words_read_by_prefix(s.drop_last(), k);
    } else {
        assert(s.take(k) =~= s);
    }
}

/// Stages without a `ReadWords` read no words.
pub proof fn lemma_no_words(s: Seq<Stage>)
    requires
        forall|i: int| 0 <= i < s.len() ==> !(#[trigger] s[i] is ReadWords),
    ensures
        words_read_by(s) == 0,
    decreases s.len(),
{
    if s.len() > 0 {
        assert(!(s[s.len() - 1] is ReadWords));
        assert forall|i: int| 0 <= i < s.drop_last().len() implies !(#[trigger] s.drop_last()[i] is ReadWords) by {
            assert(s.drop_last()[i] == s[i]);
        }
        lemma_no_words(s.drop_last());
    }
}

proof fn lemma_words_read_by_push(s: Seq<Stage>, st: Stage)
    ensures
        words_read_by(s.push(st)) == words_read_by(s) + match st {
            Stage::ReadWords { count } => count as nat,
            _ => 0,
        },
{
    assert(s.push(st).drop_last() =~= s);
}

/// Every step of a well-formed, running transaction leads to a well-formed
/// state with the same stages and outgoing words.
pub proof fn lemma_after_wf(v: TransferView, input: PortInput)
    requires
        v.wf(),
        !v.finished(),
        v.accepts(input),
    ensures
        v.after(input).wf(),
        v.after(input).stages == v.stages,
        v.after(input).words_out == v.words_out,
{
    let w = v.after(input);
    let st = v.stage();
    assert(v.stages.take(v.at as int + 1) =~= v.stages.take(v.at as int).push(st));
    lemma_words_read_by_push(v.stages.take(v.at as int), st);
    lemma_words_read_by_prefix(v.stages, v.at as int + 1);
    if w.at == v.at + 1 {
        if w.at == v.stages.len() {
            assert(v.stages.take(w.at as int) =~= v.stages);
        } else {
            assert(stage_ok(v.stages[w.at as int], v.words_out.len()));
        }
    }
}

impl TransferView {
    /// Most steps left in the current stage, or in the current round of a
    /// retried wait.
    pub open spec fn stage_budget(self) -> nat {
        let wait_budget = (2 * (POLL_TIMEOUT + 1 - self.polls) + if self.pausing { 1int } else { 0 }) as nat;
        match self.stage() {
            Stage::WaitNotBusy => wait_budget,
            Stage::WaitNotBusyRetried { .. } => wait_budget,
            Stage::WaitDataRequest => wait_budget,
            Stage::PollNotBusy { reads } => (reads - self.polls) as nat,
            Stage::PollDataRequest { reads } => (reads - self.polls) as nat,
            Stage::CheckSignature => (2 - self.polls) as nat,
            Stage::ReadWords { count } => (count - self.polls) as nat,
            Stage::WriteWords => (self.words_out.len() - self.polls) as nat,
            _ => 1,
        }
    }
}

/// The status checks that end a transaction with a failure: a busy wait that
/// has already seen `POLL_TIMEOUT` busy reads fails on one more; a data
/// request wait fails on a status with ERR or DF set, or on a status with
/// neither DRQ set after `POLL_TIMEOUT` such reads; the presence check fails on
/// a status of 0; and the signature check fails on a packet device.
pub proof fn lemma_status_failures(v: TransferView, s: u8)
    requires
        v.wf(),
        !v.finished(),
        v.accepts(PortInput::Byte(s)),
    ensures
        v.stage() is WaitNotBusy && s & ATA_STATUS_BSY != 0 && v.polls == POLL_TIMEOUT
            ==> v.after(PortInput::Byte(s)).failed,
        v.stage() is WaitDataRequest && (s & ATA_STATUS_ERR != 0 || s & ATA_STATUS_DF != 0)
            ==> v.after(PortInput::Byte(s)).failed,
        v.stage() is WaitDataRequest && s & ATA_STATUS_DRQ == 0 && v.polls == POLL_TIMEOUT
            ==> v.after(PortInput::Byte(s)).failed,
        v.stage() is CheckPresence && s == 0 ==> v.after(PortInput::Byte(s)).failed,
        v.stage() is CheckSignature && v.polls == 1 && v.signature_mid == 0x14 && s == 0xEB
            ==> v.after(PortInput::Byte(s)).failed,
{
}

/// A transaction that ran all its stages without failing has read exactly
/// the words that its `ReadWords` stages call for.
pub proof fn lemma_success_reads_all_words(v: TransferView)
    requires
        v.wf(),
        v.finished(),
        !v.failed,
    ensures
        v.words_in.len() == words_read_by(v.stages),
{
}

/// A port of channel `c`: its command block (base to base + 7) or its
/// control register.
pub open spec fn channel_port(c: Channel, port: u16) -> bool {
    (c.base <= port <= c.base + 7) || port == c.control
}

/// Every register write and settling read among `s` is on channel `c`.
pub open spec fn stages_on_channel(s: Seq<Stage>, c: Channel) -> bool {
    forall|i: int| 0 <= i < s.len() ==> match #[trigger] s[i] {
        Stage::Out8 { port, .. } => channel_port(c, port),
        Stage::Discard8 { port } => channel_port(c, port),
        _ => true,
    }
}

/// The port that an action touches, if any.
pub open spec fn action_port(a: PortAction) -> Option<u16> {
    match a {
        PortAction::Out8 { port, .. } => Some(port),
        PortAction::Out16 { port, .. } => Some(port),
        PortAction::In8 { port } => Some(port),
        PortAction::In16 { port } => Some(port),
        _ => None,
    }
}

/// A transaction whose register stages stay on its own channel touches no
/// other port: status polls, signature reads and data transfers use that
/// channel's registers.
pub proof fn lemma_actions_stay_on_channel(v: TransferView)
    requires
        v.wf(),
        stages_on_channel(v.stages, v.channel),
    ensures
        action_port(v.action()) matches Some(p) ==> channel_port(v.channel, p),
{
    if !v.finished() {
        assert(stages_on_channel(v.stages, v.channel) ==> match v.stages[v.at as int] {
            Stage::Out8 { port, .. } => channel_port(v.channel, port),
            Stage::Discard8 { port } => channel_port(v.channel, port),
            _ => true,
        });
    }
}

/// Most steps one round of a status wait takes: a status read and a pause
/// for each of `POLL_TIMEOUT + 1` reads.
pub open spec fn wait_round_cost() -> nat {
    200_000_002
}

/// Most steps a stage takes from its start.
pub open spec fn stage_cost(st: Stage, words_out_len: nat) -> nat {
    match st {
        Stage::WaitNotBusy => wait_round_cost(),
        Stage::WaitDataRequest => wait_round_cost(),
        Stage::WaitNotBusyRetried { attempts } => attempts as nat * 200_000_002,
        Stage::PollNotBusy { reads } => reads as nat,
        Stage::PollDataRequest { reads } => reads as nat,
        Stage::CheckSignature => 2,
        Stage::ReadWords { count } => count as nat,
        Stage::WriteWords => words_out_len,
        _ => 1,
    }
}

/// Most steps that the stages `s` take in all.
pub open spec fn cost_of(s: Seq<Stage>, words_out_len: nat) -> nat
    decreases s.len(),
{
    if s.len() == 0 {
        0
    } else {
        stage_cost(s[0], words_out_len) + cost_of(s.skip(1), words_out_len)
    }
}

impl TransferView {
    /// Most steps left in the current stage.
    pub open spec fn current_cost(self) -> nat {
        match self.stage() {
            Stage::WaitNotBusyRetried { attempts } =>
                ((attempts - self.attempts_used - 1) * 200_000_002 + self.stage_budget()) as nat,
            _ => self.stage_budget(),
        }
    }

    /// Most steps left before the transaction ends.
    pub open spec fn steps_left(self) -> nat {
        if self.finished() {
            0
        } else {
            self.current_cost() + cost_of(self.stages.skip(self.at as int + 1), self.words_out.len())
        }
    }
}

/// The steps that a sequence of stages takes add up over concatenation.
pub proof fn lemma_cost_of_append(a: Seq<Stage>, b: Seq<Stage>, n: nat)
    ensures
        cost_of(a + b, n) == cost_of(a, n) + cost_of(b, n),
    decreases a.len(),
{
    if a.len() == 0 {
        assert(a + b =~= b);
    } else {
        assert((a + b).skip(1) =~= a.skip(1) + b);
        lemma_cost_of_append(a.skip(1), b, n);
    }
}

/// The steps that a single stage takes.
pub proof fn lemma_cost_of_single(st: Stage, n: nat)
    ensures
        cost_of(seq![st], n) == stage_cost(st, n),
{
    assert(seq![st].skip(1) =~= Seq::<Stage>::empty());
    assert(cost_of(Seq::<Stage>::empty(), n) == 0);
    assert(seq![st][0] == st);
}

/// Every step of a running transaction either ends it or lowers the number of
/// steps left, so a transaction takes at most `steps_left` more steps (port
/// accesses and pauses); a fresh one takes at most `cost_of` its stages.
pub proof fn lemma_steps_bound(v: TransferView, input: PortInput)
    requires
        v.wf(),
        !v.finished(),
        v.accepts(input),
    ensures
        v.after(input).finished() || v.after(input).steps_left() < v.steps_left(),
        v.current_cost() >= 1,
{
    let w = v.after(input);
    let n = v.words_out.len();
    lemma_after_wf(v, input);
    if !w.finished() && w.at == v.at + 1 {
        let k = v.at as int + 1;
        assert(v.stages.skip(k).skip(1) =~= v.stages.skip(k + 1));
        assert(v.stages.skip(k)[0] == v.stages[k]);
        assert(cost_of(v.stages.skip(k), n) == stage_cost(v.stages[k], n) + cost_of(v.stages.skip(k + 1), n));
        assert(stage_ok(v.stages[k], n));
        assert(w.current_cost() == stage_cost(v.stages[k], n));
    }
}

/// A fresh transaction has `cost_of` its stages as its step bound.
pub proof fn lemma_start_steps(c: Channel, stages: Seq<Stage>, words_out: Seq<u16>)
    requires
        stages.len() > 0,
        forall|i: int| 0 <= i < stages.len() ==> #[trigger] stage_ok(stages[i], words_out.len()),
    ensures
        transfer_start(c, stages, words_out).steps_left() == cost_of(stages, words_out.len()),
{
    assert(stage_ok(stages[0], words_out.len()));
    assert(stages.skip(0) =~= stages);
}

/// Stages that each take one step take as many steps as there are stages.
pub proof fn lemma_cost_of_unit_stages(s: Seq<Stage>, n: nat)
    requires
        forall|i: int| 0 <= i < s.len() ==> #[trigger] stage_cost(s[i], n) == 1,
    ensures
        cost_of(s, n) == s.len(),
    decreases s.len(),
{
    if s.len() > 0 {
        assert(stage_cost(s[0], n) == 1);
        assert forall|i: int| 0 <= i < s.skip(1).len() implies #[trigger] stage_cost(s.skip(1)[i], n) == 1 by {
            assert(s.skip(1)[i] == s[i + 1]);
        }
        lemma_cost_of_unit_stages(s.skip(1), n);
    }
}

/// What a status wait is fed when its reads return `statuses` in turn: each
/// read but the last is followed by a pause.
pub open spec fn poll_inputs(statuses: Seq<u8>) -> Seq<PortInput>
    decreases statuses.len(),
{
    if statuses.len() == 0 {
        Seq::empty()
    } else if statuses.len() == 1 {
        seq![PortInput::Byte(statuses[0])]
    } else {
        seq![PortInput::Byte(statuses[0]), PortInput::Done] + poll_inputs(statuses.skip(1))
    }
}

/// The state after the machine is fed `inputs` one by one.
pub open spec fn run_inputs(v: TransferView, inputs: Seq<PortInput>) -> TransferView
    decreases inputs.len(),
{
    if inputs.len() == 0 {
        v
    } else {
        run_inputs(v.after(inputs[0]), inputs.skip(1))
    }
}

proof fn lemma_poll_inputs_unfold(statuses: Seq<u8>)
    requires
        statuses.len() >= 2,
    ensures
        poll_inputs(statuses)[0] == PortInput::Byte(statuses[0]),
        poll_inputs(statuses).skip(1)[0] == PortInput::Done,
        poll_inputs(statuses).skip(1).skip(1) == poll_inputs(statuses.skip(1)),
        poll_inputs(statuses).len() > 1,
{
    let p = seq![PortInput::Byte(statuses[0]), PortInput::Done];
    assert(poll_inputs(statuses) == p + poll_inputs(statuses.skip(1)));
    assert((p + poll_inputs(statuses.skip(1))).skip(1).skip(1) =~= poll_inputs(statuses.skip(1)));
}

proof fn lemma_run_one(v: TransferView, x: PortInput)
    ensures
        run_inputs(v, seq![x]) == v.after(x),
{
    assert(seq![x].skip(1) =~= Seq::<PortInput>::empty());
    assert(seq![x][0] == x);
    assert(run_inputs(v.after(x), Seq::<PortInput>::empty()) == v.after(x));
}

/// The outcome of a busy wait as a function of the status reads: fed reads
/// that show BSY and then one that shows it clear, within `POLL_TIMEOUT + 1`
/// reads in all, the wait moves on to the next stage; fed `POLL_TIMEOUT + 1`
/// reads that all show BSY, the transaction fails.
pub proof fn lemma_busy_wait_outcome(v: TransferView, statuses: Seq<u8>)
    requires
        !v.failed,
        v.at < v.stages.len(),
        v.stage() is WaitNotBusy,
        !v.pausing,
        statuses.len() >= 1,
        forall|i: int| 0 <= i < statuses.len() - 1 ==> #[trigger] statuses[i] & ATA_STATUS_BSY != 0,
    ensures
        statuses.last() & ATA_STATUS_BSY == 0 && v.polls + statuses.len() - 1 <= POLL_TIMEOUT
            ==> run_inputs(v, poll_inputs(statuses)) == v.next_stage(),
        statuses.last() & ATA_STATUS_BSY != 0 && v.polls + statuses.len() == POLL_TIMEOUT + 1
            ==> run_inputs(v, poll_inputs(statuses)) == (TransferView { polls: POLL_TIMEOUT as nat, failed: true, ..v }),
    decreases statuses.len(),
{
    if statuses.len() == 1 {
        lemma_run_one(v, PortInput::Byte(statuses[0]));
    } else {
        let s0 = statuses[0];
        assert(s0 & ATA_STATUS_BSY != 0);
        let ins = poll_inputs(statuses);
        lemma_poll_inputs_unfold(statuses);
        if v.polls + statuses.len() - 1 <= POLL_TIMEOUT {
            let v1 = v.after(PortInput::Byte(s0));
            let v2 = v1.after(PortInput::Done);
            assert(v2 == TransferView { polls: v.polls + 1, ..v });
            let rest = statuses.skip(1);
            assert(forall|i: int| 0 <= i < rest.len() - 1 ==> #[trigger] rest[i] == statuses[i + 1]);
            assert forall|i: int| 0 <= i < rest.len() - 1 implies #[trigger] rest[i] & ATA_STATUS_BSY != 0 by {
                assert(rest[i] == statuses[i + 1]);
            }
            lemma_busy_wait_outcome(v2, rest);
            assert(run_inputs(v, ins) == run_inputs(v1, ins.skip(1)));
            assert(run_inputs(v1, ins.skip(1)) == run_inputs(v2, ins.skip(1).skip(1)));
            assert(rest.last() == statuses.last());
            assert(v2.next_stage() == v.next_stage());
        }
    }
}

/// The outcome of a data-request wait as a function of the status reads:
/// after reads showing none of ERR, DF and DRQ, a read showing DRQ (without
/// ERR or DF) moves on to the next stage and a read showing ERR or DF fails
/// the transaction, as long as both come within `POLL_TIMEOUT + 1` reads;
/// `POLL_TIMEOUT + 1` reads showing none of the three fail it too.
pub proof fn lemma_data_wait_outcome(v: TransferView, statuses: Seq<u8>)
    requires
        !v.failed,
        v.at < v.stages.len(),
        v.stage() is WaitDataRequest,
        !v.pausing,
        statuses.len() >= 1,
        forall|i: int| 0 <= i < statuses.len() - 1 ==> {
            &&& #[trigger] statuses[i] & ATA_STATUS_ERR == 0
            &&& statuses[i] & ATA_STATUS_DF == 0
            &&& statuses[i] & ATA_STATUS_DRQ == 0
        },
    ensures
        ({
            let last = statuses.last();
            &&& last & ATA_STATUS_ERR == 0 && last & ATA_STATUS_DF == 0 && last & ATA_STATUS_DRQ != 0
                && v.polls + statuses.len() - 1 <= POLL_TIMEOUT
                ==> run_inputs(v, poll_inputs(statuses)) == v.next_stage()
            &&& (last & ATA_STATUS_ERR != 0 || last & ATA_STATUS_DF != 0)
                && v.polls + statuses.len() - 1 <= POLL_TIMEOUT
                ==> run_inputs(v, poll_inputs(statuses))
                    == (TransferView { polls: (v.polls + statuses.len() - 1) as nat, failed: true, ..v })
            &&& last & ATA_STATUS_ERR == 0 && last & ATA_STATUS_DF == 0 && last & ATA_STATUS_DRQ == 0
                && v.polls + statuses.len() == POLL_TIMEOUT + 1
                ==> run_inputs(v, poll_inputs(statuses)) == (TransferView { polls: POLL_TIMEOUT as nat, failed: true, ..v })
        }),
    decreases statuses.len(),
{
    if statuses.len() == 1 {
        lemma_run_one(v, PortInput::Byte(statuses[0]));
    } else {
        let s0 = statuses[0];
        assert(s0 & ATA_STATUS_ERR == 0 && s0 & ATA_STATUS_DF == 0 && s0 & ATA_STATUS_DRQ == 0);
        let ins = poll_inputs(statuses);
        lemma_poll_inputs_unfold(statuses);
        if v.polls + statuses.len() - 1 <= POLL_TIMEOUT {
            let v1 = v.after(PortInput::Byte(s0));
            let v2 = v1.after(PortInput::Done);
            assert(v2 == TransferView { polls: v.polls + 1, ..v });
            let rest = statuses.skip(1);
            assert forall|i: int| 0 <= i < rest.len() - 1 implies {
                &&& #[trigger] rest[i] & ATA_STATUS_ERR == 0
                &&& rest[i] & ATA_STATUS_DF == 0
                &&& rest[i] & ATA_STATUS_DRQ == 0
            } by {
                assert(rest[i] == statuses[i + 1]);
            }
            lemma_data_wait_outcome(v2, rest);
            assert(run_inputs(v, ins) == run_inputs(v1, ins.skip(1)));
            assert(run_inputs(v1, ins.skip(1)) == run_inputs(v2, ins.skip(1).skip(1)));
            assert(rest.last() == statuses.last());
            assert(v2.next_stage() == v.next_stage());
        }
    }
}

/// A settling read never decides anything: whatever byte it returns, the
/// transaction moves on to the next stage without failing.
pub proof fn lemma_settle_read_ignored(v: TransferView, b1: u8, b2: u8)
    requires
        v.wf(),
        !v.finished(),
        v.stage() is Discard8,
    ensures
        !v.after(PortInput::Byte(b1)).failed,
        v.after(PortInput::Byte(b1)).at == v.at + 1,
        v.after(PortInput::Byte(b1)) == v.after(PortInput::Byte(b2)),
{
}

/// The busy wait after a reset never fails the transaction, whatever the
/// status reads show: a read with BSY clear moves on to the next stage; a
/// read with BSY set keeps polling (one more busy read counted, then a pause)
/// while the round has reads left, and starts another round or moves on once
/// it has none.
pub proof fn lemma_reset_wait_never_fails(v: TransferView, input: PortInput)
    requires
        v.wf(),
        !v.finished(),
        v.stage() is WaitNotBusyRetried,
        v.accepts(input),
    ensures
        !v.after(input).failed,
        v.after(input).at == v.at || v.after(input).at == v.at + 1,
        input matches PortInput::Byte(s) ==> {
            &&& s & ATA_STATUS_BSY == 0 ==> v.after(input).at == v.at + 1
            &&& s & ATA_STATUS_BSY != 0 && v.polls < POLL_TIMEOUT ==> {
                &&& v.after(input).at == v.at
                &&& v.after(input).polls == v.polls + 1
                &&& v.after(input).pausing
            }
        },
{
}

/// Within one round, the reset wait fed reads that show BSY and then one that
/// shows it clear moves on to the next stage, without failing.
pub proof fn lemma_reset_wait_outcome(v: TransferView, statuses: Seq<u8>)
    requires
        !v.failed,
        v.at < v.stages.len(),
        v.stage() is WaitNotBusyRetried,
        !v.pausing,
        statuses.len() >= 1,
        forall|i: int| 0 <= i < statuses.len() - 1 ==> #[trigger] statuses[i] & ATA_STATUS_BSY != 0,
        statuses.last() & ATA_STATUS_BSY == 0,
        v.polls + statuses.len() - 1 <= POLL_TIMEOUT,
    ensures
        run_inputs(v, poll_inputs(statuses)) == v.next_stage(),
    decreases statuses.len(),
{
    if statuses.len() == 1 {
        lemma_run_one(v, PortInput::Byte(statuses[0]));
    } else {
        let s0 = statuses[0];
        assert(s0 & ATA_STATUS_BSY != 0);
        let ins = poll_inputs(statuses);
        lemma_poll_inputs_unfold(statuses);
        let v1 = v.after(PortInput::Byte(s0));
        let v2 = v1.after(PortInput::Done);
        assert(v2 == TransferView { polls: v.polls + 1, ..v });
        let rest = statuses.skip(1);
        assert forall|i: int| 0 <= i < rest.len() - 1 implies #[trigger] rest[i] & ATA_STATUS_BSY != 0 by {
            assert(rest[i] == statuses[i + 1]);
        }
        assert(rest.last() == statuses.last());
        lemma_reset_wait_outcome(v2, rest);
        assert(run_inputs(v, ins) == run_inputs(v1, ins.skip(1)));
        assert(run_inputs(v1, ins.skip(1)) == run_inputs(v2, ins.skip(1).skip(1)));
        assert(v2.next_stage() == v.next_stage());
    }
}

/// The busy poll after IDENTIFY fails the transaction only when the status
/// kept by the presence check has ERR set. A read with BSY set while reads
/// remain just counts one more poll; once BSY is clear or the reads run out,
/// the transaction moves on unless that kept status had ERR.
pub proof fn lemma_identify_busy_poll(v: TransferView, s: u8)
    requires
        v.wf(),
        !v.finished(),
        v.stage() is PollNotBusy,
    ensures
        v.after(PortInput::Byte(s)).failed ==> v.status & ATA_STATUS_ERR != 0,
        v.status & ATA_STATUS_ERR == 0 ==> !v.after(PortInput::Byte(s)).failed,
        s & ATA_STATUS_BSY != 0 && v.polls + 1 < v.stage()->PollNotBusy_reads ==>
            v.after(PortInput::Byte(s)) == (TransferView { polls: v.polls + 1, ..v }),
        s & ATA_STATUS_BSY == 0 && v.status & ATA_STATUS_ERR == 0 ==>
            v.after(PortInput::Byte(s)).at == v.at + 1,
{
}

} // verus!
