//! The transport: what goes over SPI and the control lines for each
//! command and each run of data.
//!
//! The transport remembers the level it last asked of the DC line and asks
//! for a change only where the level has to change. Each operation hands
//! out one transaction: the DC change if one is due, a single SPI write,
//! and a wait if one was asked for.

use vstd::prelude::*;
use vstd::slice::slice_to_vec;
use crate::bus::{
    dc_edges_are_real, lemma_dc_edges_concat, lemma_phase_after_concat, lemma_received_concat,
    lemma_spi_writes_concat, phase_after, received, spi_writes, BusOp, Signal,
};
use crate::enums::Command;
use crate::job::{Job, Step};

verus! {

/// How long the reset line is held at each level, in milliseconds.
pub const RESET_DELAY_MS: u64 = 10;

/// The change of the DC line that is due, if any, to be in the command
/// phase (`want_command`) or in the data phase.
pub open spec fn dc_signals(command: bool, want_command: bool) -> Seq<Signal> {
    if command == want_command {
        Seq::empty()
    } else {
        seq![Signal::Dc { high: !want_command }]
    }
}

/// The wait of `millis` milliseconds, if there is any to make.
pub open spec fn sleep_signals(millis: u64) -> Seq<Signal> {
    if millis > 0 {
        seq![Signal::Sleep { millis }]
    } else {
        Seq::empty()
    }
}

/// The transaction that sends a command: DC low if it is not, the opcode
/// alone in one write, then the wait.
pub open spec fn command_signals(command: bool, cmd: Command, delay_ms: u64) -> Seq<Signal> {
    dc_signals(command, true) + seq![Signal::Write { bytes: seq![cmd.spec_opcode()] }]
        + sleep_signals(delay_ms)
}

/// The transaction that sends data: DC high if it is not, the bytes in one
/// write, then the wait.
pub open spec fn data_signals(command: bool, bytes: Seq<u8>, delay_ms: u64) -> Seq<Signal> {
    dc_signals(command, false) + seq![Signal::Write { bytes }] + sleep_signals(delay_ms)
}

/// The hardware reset: the reset line high, low and high again, each level
/// held for [`RESET_DELAY_MS`].
pub open spec fn reset_signals() -> Seq<Signal> {
    seq![
        Signal::Rst { high: true },
        Signal::Sleep { millis: RESET_DELAY_MS },
        Signal::Rst { high: false },
        Signal::Sleep { millis: RESET_DELAY_MS },
        Signal::Rst { high: true },
        Signal::Sleep { millis: RESET_DELAY_MS },
    ]
}

/// A 16-bit word as it goes over the wire: the high byte first.
pub open spec fn be_bytes(word: u16) -> Seq<u8> {
    seq![(word / 256) as u8, (word % 256) as u8]
}

/// The state of the transport: the phase that the DC line was last put in.
#[derive(Debug)]
pub struct InnerTftSpi {
    command: bool,
}

impl InnerTftSpi {
    /// Whether the DC line was last put low, the command phase.
    pub closed spec fn in_command_phase(&self) -> bool {
        self.command
    }

    /// A transport whose DC line is low.
    pub fn new() -> (spi: Self)
        ensures
            spi.in_command_phase(),
    {
        InnerTftSpi { command: true }
    }

    /// Whether the DC line was last put low, the command phase.
    pub fn is_command_phase(&self) -> (command: bool)
        ensures
            command == self.in_command_phase(),
    {
        self.command
    }

    fn dc_set_low(&mut self, ops: &mut Vec<BusOp>)
        ensures
            final(self).in_command_phase(),
            final(ops).deep_view() == old(ops).deep_view() + dc_signals(
                old(self).in_command_phase(),
                true,
            ),
    {
        if !self.command {
            ops.push(BusOp::Dc { high: false });
            self.command = true;
        }
        assert(ops.deep_view() =~= old(ops).deep_view() + dc_signals(
            old(self).in_command_phase(),
            true,
        ));
    }

    fn dc_set_high(&mut self, ops: &mut Vec<BusOp>)
        ensures
            !final(self).in_command_phase(),
            final(ops).deep_view() == old(ops).deep_view() + dc_signals(
                old(self).in_command_phase(),
                false,
            ),
    {
        if self.command {
            ops.push(BusOp::Dc { high: true });
            self.command = false;
        }
        assert(ops.deep_view() =~= old(ops).deep_view() + dc_signals(
            old(self).in_command_phase(),
            false,
        ));
    }

    /// The hardware reset. It leaves the DC line alone.
    pub fn reset_pin(&mut self) -> (ops: Vec<BusOp>)
        ensures
            ops.deep_view() == reset_signals(),
            final(self).in_command_phase() == old(self).in_command_phase(),
    {
        let mut ops: Vec<BusOp> = Vec::new();
        ops.push(BusOp::Rst { high: true });
        ops.push(BusOp::Sleep { millis: RESET_DELAY_MS });
        ops.push(BusOp::Rst { high: false });
        ops.push(BusOp::Sleep { millis: RESET_DELAY_MS });
        ops.push(BusOp::Rst { high: true });
        ops.push(BusOp::Sleep { millis: RESET_DELAY_MS });
        assert(ops.deep_view() =~= reset_signals());
        ops
    }

    /// A command and its parameters: the job that sends the command, then
    /// the data, each in a transaction of its own. It ends with the sum of
    /// the bytes that the bus took of the two.
    pub fn write_reg(cmd: Command, data: &[u8]) -> (job: Job)
        ensures
            job.remaining() == seq![
                crate::job::Frame::Command { cmd, delay_ms: 0 },
                crate::job::Frame::Data { bytes: data@, delay_ms: 0 },
            ],
            !job.initializes(),
            job.written() == 0,
    {
        let mut steps: Vec<Step> = Vec::new();
        steps.push(Step::Command { cmd, delay_ms: 0 });
        steps.push(Step::Data { bytes: slice_to_vec(data), delay_ms: 0 });
        Job::from_steps(steps)
    }

    /// The transaction that sends `cmd`: DC low if it is not, then the
    /// opcode.
    pub fn write_command(&mut self, cmd: Command) -> (ops: Vec<BusOp>)
        ensures
            ops.deep_view() == command_signals(old(self).in_command_phase(), cmd, 0),
            final(self).in_command_phase(),
    {
        self.write_command_delay(cmd, 0)
    }

    /// The transaction that sends `cmd` and then waits `delay_ms`
    /// milliseconds, if that is not zero.
    pub fn write_command_delay(&mut self, cmd: Command, delay_ms: u64) -> (ops: Vec<BusOp>)
        ensures
            ops.deep_view() == command_signals(old(self).in_command_phase(), cmd, delay_ms),
            final(self).in_command_phase(),
    {
        let mut ops: Vec<BusOp> = Vec::new();
        assert(ops.deep_view() =~= Seq::<Signal>::empty());
        self.dc_set_low(&mut ops);
        let mut bytes: Vec<u8> = Vec::new();
        bytes.push(cmd.opcode());
        assert(bytes@ =~= seq![cmd.spec_opcode()]);
        ops.push(BusOp::Write { bytes });
        if delay_ms > 0 {
            ops.push(BusOp::Sleep { millis: delay_ms });
        }
        assert(ops.deep_view() =~= command_signals(old(self).in_command_phase(), cmd, delay_ms));
        ops
    }

    /// The transaction that sends `data`: DC high if it is not, then the
    /// bytes.
    pub fn write_data(&mut self, data: &[u8]) -> (ops: Vec<BusOp>)
        ensures
            ops.deep_view() == data_signals(old(self).in_command_phase(), data@, 0),
            !final(self).in_command_phase(),
    {
        self.write_data_delay(data, 0)
    }

    /// The transaction that sends `data` and then waits `delay_ms`
    /// milliseconds, if that is not zero.
    pub fn write_data_delay(&mut self, data: &[u8], delay_ms: u64) -> (ops: Vec<BusOp>)
        ensures
            ops.deep_view() == data_signals(old(self).in_command_phase(), data@, delay_ms),
            !final(self).in_command_phase(),
    {
        let mut ops: Vec<BusOp> = Vec::new();
        assert(ops.deep_view() =~= Seq::<Signal>::empty());
        self.dc_set_high(&mut ops);
        ops.push(BusOp::Write { bytes: slice_to_vec(data) });
        if delay_ms > 0 {
            ops.push(BusOp::Sleep { millis: delay_ms });
        }
        assert(ops.deep_view() =~= data_signals(old(self).in_command_phase(), data@, delay_ms));
        ops
    }

    /// The transaction that sends a 16-bit word as data, the high byte
    /// first.
    pub fn write_word(&mut self, word: u16) -> (ops: Vec<BusOp>)
        ensures
            ops.deep_view() == data_signals(old(self).in_command_phase(), be_bytes(word), 0),
            !final(self).in_command_phase(),
    {
        let mut bytes: Vec<u8> = Vec::new();
        bytes.push((word / 256) as u8);
        bytes.push((word % 256) as u8);
        assert(bytes@ =~= be_bytes(word));
        self.write_data(bytes.as_slice())
    }
}

/// A command reaches the controller as a command: whatever the phase
/// before, the opcode arrives with DC low, the line is changed only if it
/// was high, and it is low afterwards.
pub proof fn lemma_command_framing(command: bool, cmd: Command, delay_ms: u64)
    ensures
        received(command, command_signals(command, cmd, delay_ms)) == seq![
            (true, seq![cmd.spec_opcode()]),
        ],
        phase_after(command, command_signals(command, cmd, delay_ms)),
        spi_writes(command_signals(command, cmd, delay_ms)) == seq![seq![cmd.spec_opcode()]],
        dc_edges_are_real(command, command_signals(command, cmd, delay_ms)),
{
    lemma_transaction_framing(command, true, seq![cmd.spec_opcode()], delay_ms);
}

/// Data reaches the controller as data: whatever the phase before, the
/// bytes arrive with DC high, the line is changed only if it was low, and
/// it is high afterwards.
pub proof fn lemma_data_framing(command: bool, bytes: Seq<u8>, delay_ms: u64)
    ensures
        received(command, data_signals(command, bytes, delay_ms)) == seq![(false, bytes)],
        !phase_after(command, data_signals(command, bytes, delay_ms)),
        spi_writes(data_signals(command, bytes, delay_ms)) == seq![bytes],
        dc_edges_are_real(command, data_signals(command, bytes, delay_ms)),
{
    lemma_transaction_framing(command, false, bytes, delay_ms);
}

/// The reset sends nothing over SPI and leaves the DC line alone: its six
/// signals are the reset line high, low, high, each followed by a wait of
/// ten milliseconds.
pub proof fn lemma_reset_framing(command: bool)
    ensures
        received(command, reset_signals()) == Seq::<(bool, Seq<u8>)>::empty(),
        phase_after(command, reset_signals()) == command,
        spi_writes(reset_signals()) == Seq::<Seq<u8>>::empty(),
        dc_edges_are_real(command, reset_signals()),
        reset_signals().len() == 6,
        reset_signals()[0] == (Signal::Rst { high: true }),
        reset_signals()[2] == (Signal::Rst { high: false }),
        reset_signals()[4] == (Signal::Rst { high: true }),
        forall|i: int|
            0 <= i < 3 ==> #[trigger] reset_signals()[2 * i + 1] == (Signal::Sleep {
                millis: 10,
            }),
{
    let s = reset_signals();
    let a = seq![s[0]];
    let b = seq![s[1]];
    let c = seq![s[2]];
    let d = seq![s[3]];
    let e = seq![s[4]];
    let f = seq![s[5]];
    assert(s =~= a + b + c + d + e + f);
    lemma_quiet_signal(command, s[0]);
    lemma_quiet_signal(command, s[1]);
    lemma_quiet_signal(command, s[2]);
    lemma_quiet_signal(command, s[3]);
    lemma_quiet_signal(command, s[4]);
    lemma_quiet_signal(command, s[5]);
    lemma_join_quiet(command, a, b);
    lemma_join_quiet(command, a + b, c);
    lemma_join_quiet(command, a + b + c, d);
    lemma_join_quiet(command, a + b + c + d, e);
    lemma_join_quiet(command, a + b + c + d + e, f);
    assert forall|i: int| 0 <= i < 3 implies #[trigger] reset_signals()[2 * i + 1] == (
    Signal::Sleep { millis: 10 }) by {
        assert(i == 0 || i == 1 || i == 2);
    }
}

/// Signals that send nothing and leave the DC line alone.
spec fn is_quiet(command: bool, signals: Seq<Signal>) -> bool {
    &&& received(command, signals) == Seq::<(bool, Seq<u8>)>::empty()
    &&& phase_after(command, signals) == command
    &&& spi_writes(signals) == Seq::<Seq<u8>>::empty()
    &&& dc_edges_are_real(command, signals)
}

proof fn lemma_quiet_signal(command: bool, signal: Signal)
    requires
        signal is Rst || signal is Sleep,
    ensures
        is_quiet(command, seq![signal]),
{
    reveal_with_fuel(received, 2);
    reveal_with_fuel(spi_writes, 2);
    reveal_with_fuel(phase_after, 2);
    let s = seq![signal];
    assert(s.drop_last() =~= Seq::<Signal>::empty());
    assert(s.last() == signal);
}

proof fn lemma_join_quiet(command: bool, a: Seq<Signal>, b: Seq<Signal>)
    requires
        is_quiet(command, a),
        is_quiet(command, b),
    ensures
        is_quiet(command, a + b),
{
    lemma_phase_after_concat(command, a, b);
    lemma_received_concat(command, a, b);
    lemma_spi_writes_concat(a, b);
    lemma_dc_edges_concat(command, a, b);
    assert(received(command, a) + received(command, b) =~= Seq::<(bool, Seq<u8>)>::empty());
    assert(spi_writes(a) + spi_writes(b) =~= Seq::<Seq<u8>>::empty());
}

/// The change of the DC line that is due sends nothing, is a real change,
/// and leaves the line where it is wanted.
proof fn lemma_dc_signals(command: bool, want_command: bool)
    ensures
        received(command, dc_signals(command, want_command)) == Seq::<(bool, Seq<u8>)>::empty(),
        phase_after(command, dc_signals(command, want_command)) == want_command,
        spi_writes(dc_signals(command, want_command)) == Seq::<Seq<u8>>::empty(),
        dc_edges_are_real(command, dc_signals(command, want_command)),
{
    reveal_with_fuel(received, 2);
    reveal_with_fuel(spi_writes, 2);
    reveal_with_fuel(phase_after, 2);
    let s = dc_signals(command, want_command);
    if command != want_command {
        assert(s.drop_last() =~= Seq::<Signal>::empty());
        assert(s.take(0) =~= Seq::<Signal>::empty());
    }
}

proof fn lemma_write_signal(command: bool, bytes: Seq<u8>)
    ensures
        received(command, seq![Signal::Write { bytes }]) == seq![(command, bytes)],
        phase_after(command, seq![Signal::Write { bytes }]) == command,
        spi_writes(seq![Signal::Write { bytes }]) == seq![bytes],
        dc_edges_are_real(command, seq![Signal::Write { bytes }]),
{
    reveal_with_fuel(received, 2);
    reveal_with_fuel(spi_writes, 2);
    reveal_with_fuel(phase_after, 2);
    let s = seq![Signal::Write { bytes }];
    assert(s.drop_last() =~= Seq::<Signal>::empty());
    assert(s.last() == (Signal::Write { bytes }));
    assert(received(command, s) =~= seq![(command, bytes)]);
    assert(spi_writes(s) =~= seq![bytes]);
}

proof fn lemma_sleep_signals(command: bool, millis: u64)
    ensures
        is_quiet(command, sleep_signals(millis)),
{
    if millis > 0 {
        lemma_quiet_signal(command, Signal::Sleep { millis });
    }
}

/// What holds of a command holds of data with the phases exchanged: one
/// proof for both.
proof fn lemma_transaction_framing(
    command: bool,
    want_command: bool,
    bytes: Seq<u8>,
    delay_ms: u64,
)
    ensures
        ({
            let s = dc_signals(command, want_command) + seq![Signal::Write { bytes }]
                + sleep_signals(delay_ms);
            &&& received(command, s) == seq![(want_command, bytes)]
            &&& phase_after(command, s) == want_command
            &&& spi_writes(s) == seq![bytes]
            &&& dc_edges_are_real(command, s)
        }),
{
    let a = dc_signals(command, want_command);
    let b = seq![Signal::Write { bytes }];
    let c = sleep_signals(delay_ms);
    lemma_dc_signals(command, want_command);
    lemma_write_signal(want_command, bytes);
    lemma_sleep_signals(want_command, delay_ms);
    lemma_phase_after_concat(command, a, b);
    lemma_received_concat(command, a, b);
    lemma_spi_writes_concat(a, b);
    lemma_dc_edges_concat(command, a, b);
    lemma_phase_after_concat(command, a + b, c);
    lemma_received_concat(command, a + b, c);
    lemma_spi_writes_concat(a + b, c);
    lemma_dc_edges_concat(command, a + b, c);
    assert(received(command, a + b + c) =~= seq![(want_command, bytes)]);
    assert(spi_writes(a + b + c) =~= seq![bytes]);
}

} // verus!
