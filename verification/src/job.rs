//! Jobs: what an operation of the driver puts on the bus, transaction by
//! transaction.
//!
//! A [`Job`] is a list of [`Step`]s still to be taken, each of them one
//! transaction of the transport. The caller performs the bus operations of
//! one step, tells the job how the SPI write went, and gets the next step,
//! until the job is done or a write has failed. The job never looks ahead:
//! the DC line is asked to change only when the step that needs it is
//! handed out.

use vstd::prelude::*;
use crate::bus::{
    dc_edges_are_real, lemma_dc_edges_concat, lemma_phase_after_concat, lemma_received_concat,
    lemma_spi_writes_concat, phase_after, received, spi_writes, BusOp, Signal,
};
use crate::enums::Command;
use crate::error::TftError;
use crate::tft_spi::{
    command_signals, data_signals, lemma_command_framing, lemma_data_framing, lemma_reset_framing,
    reset_signals, InnerTftSpi,
};

verus! {

/// One transaction, as contracts see it.
pub enum Frame {
    /// The hardware reset.
    Reset,
    /// A command, and a wait of `delay_ms` milliseconds after it.
    Command { cmd: Command, delay_ms: u64 },
    /// A run of data in one write, and a wait of `delay_ms` milliseconds
    /// after it.
    Data { bytes: Seq<u8>, delay_ms: u64 },
}

/// One transaction of a job.
#[derive(Debug, PartialEq, Eq)]
pub enum Step {
    /// The hardware reset.
    Reset,
    /// A command, and a wait of `delay_ms` milliseconds after it.
    Command { cmd: Command, delay_ms: u64 },
    /// A run of data in one write, and a wait of `delay_ms` milliseconds
    /// after it.
    Data { bytes: Vec<u8>, delay_ms: u64 },
}

impl View for Step {
    type V = Frame;

    open spec fn view(&self) -> Frame {
        match *self {
            Step::Reset => Frame::Reset,
            Step::Command { cmd, delay_ms } => Frame::Command { cmd, delay_ms },
            Step::Data { bytes, delay_ms } => Frame::Data { bytes: bytes@, delay_ms },
        }
    }
}

impl DeepView for Step {
    type V = Frame;

    open spec fn deep_view(&self) -> Frame {
        self@
    }
}

/// The signals of one transaction, begun in the command phase if and only
/// if `command`.
pub open spec fn frame_signals(command: bool, frame: Frame) -> Seq<Signal> {
    match frame {
        Frame::Reset => reset_signals(),
        Frame::Command { cmd, delay_ms } => command_signals(command, cmd, delay_ms),
        Frame::Data { bytes, delay_ms } => data_signals(command, bytes, delay_ms),
    }
}

/// The phase that a transaction leaves the transport in.
pub open spec fn frame_phase(command: bool, frame: Frame) -> bool {
    match frame {
        Frame::Reset => command,
        Frame::Command { .. } => true,
        Frame::Data { .. } => false,
    }
}

/// What a transaction is meant to bring to the controller: its bytes, and
/// whether they are a command.
pub open spec fn frame_meaning(frame: Frame) -> Seq<(bool, Seq<u8>)> {
    match frame {
        Frame::Reset => Seq::empty(),
        Frame::Command { cmd, delay_ms } => seq![(true, seq![cmd.spec_opcode()])],
        Frame::Data { bytes, delay_ms } => seq![(false, bytes)],
    }
}

/// All the signals of the transactions `frames`, taken one after the other
/// from the phase `command` on, if no write fails.
pub open spec fn wire(command: bool, frames: Seq<Frame>) -> Seq<Signal>
    decreases frames.len(),
{
    if frames.len() == 0 {
        Seq::empty()
    } else {
        frame_signals(command, frames[0]) + wire(frame_phase(command, frames[0]), frames.skip(1))
    }
}

/// The phase that the transport is left in by the transactions `frames`.
pub open spec fn end_phase(command: bool, frames: Seq<Frame>) -> bool
    decreases frames.len(),
{
    if frames.len() == 0 {
        command
    } else {
        end_phase(frame_phase(command, frames[0]), frames.skip(1))
    }
}

/// What the transactions `frames` are meant to bring to the controller:
/// every write with its bytes, and whether they are a command.
pub open spec fn meaning(frames: Seq<Frame>) -> Seq<(bool, Seq<u8>)>
    decreases frames.len(),
{
    if frames.len() == 0 {
        Seq::empty()
    } else {
        frame_meaning(frames[0]) + meaning(frames.skip(1))
    }
}

/// The number of bytes that the transactions `frames` send as data.
pub open spec fn data_len(frames: Seq<Frame>) -> nat
    decreases frames.len(),
{
    if frames.len() == 0 {
        0
    } else {
        (match frames[0] {
            Frame::Data { bytes, delay_ms } => bytes.len(),
            _ => 0nat,
        }) + data_len(frames.skip(1))
    }
}

/// The same data sent `times` times, each time in a transaction of its own
/// and without a wait.
pub open spec fn repeated_data(bytes: Seq<u8>, times: nat) -> Seq<Frame> {
    Seq::new(times, |i: int| Frame::Data { bytes, delay_ms: 0 })
}

/// The sum of two byte counts, or the largest count if the sum is larger.
pub open spec fn add_capped(a: usize, b: usize) -> usize {
    if a + b > usize::MAX {
        usize::MAX
    } else {
        (a + b) as usize
    }
}

/// A job: the transactions that an operation still has to make, and the
/// number of bytes that the bus has taken of it.
#[derive(Debug)]
pub struct Job {
    steps: Vec<Step>,
    next: usize,
    row: Vec<u8>,
    rows: u16,
    initializes: bool,
    written: usize,
}

/// What comes of taking a job one step further.
#[derive(Debug)]
pub enum Progress {
    /// Perform `ops` in order, then hand `job` the outcome of the SPI
    /// write among them.
    Perform { job: Job, ops: Vec<BusOp> },
    /// The job is over: every transaction was made, and the bus has taken
    /// that many bytes in all; or a write failed.
    Finished { result: Result<usize, TftError> },
}

/// How one step takes a job on, from the phase `before` of the transport
/// to the phase `after`, when the write of the step before went as `last`
/// says.
///
/// A failed write ends the job with the bus's error. Else the bytes that
/// the write took are added to the job's count, and the job ends in
/// success with that count if nothing is left, or hands out its next
/// transaction.
pub open spec fn steps_to(
    job: Job,
    before: bool,
    last: Result<usize, rppal::spi::Error>,
    progress: Progress,
    after: bool,
) -> bool {
    match last {
        Err(e) => {
            &&& progress == (Progress::Finished { result: Err(TftError::Spi(e)) })
            &&& after == before
        },
        Ok(n) => if job.remaining().len() == 0 {
            &&& progress == (Progress::Finished { result: Ok(add_capped(job.written(), n)) })
            &&& after == before
        } else {
            &&& progress matches Progress::Perform { job: rest, ops }
            &&& ops.deep_view() == frame_signals(before, job.remaining()[0])
            &&& rest.remaining() == job.remaining().skip(1)
            &&& rest.initializes() == job.initializes()
            &&& rest.written() == add_capped(job.written(), n)
            &&& after == frame_phase(before, job.remaining()[0])
        },
    }
}

impl Job {
    #[verifier::type_invariant]
    spec fn position_is_valid(self) -> bool {
        self.next <= self.steps.len()
    }

    /// The transactions still to be made, in order.
    pub closed spec fn remaining(&self) -> Seq<Frame> {
        self.steps.deep_view().skip(self.next as int) + repeated_data(self.row@, self.rows as nat)
    }

    /// Whether the job, once it has gone through, has brought the panel
    /// up.
    pub closed spec fn initializes(&self) -> bool {
        self.initializes
    }

    /// The number of bytes that the bus has taken of the job so far.
    pub closed spec fn written(&self) -> usize {
        self.written
    }

    /// The job that makes the transactions `steps`, in order.
    pub fn from_steps(steps: Vec<Step>) -> (job: Job)
        ensures
            job.remaining() == steps.deep_view(),
            !job.initializes(),
            job.written() == 0,
    {
        let job = Job { steps, next: 0, row: Vec::new(), rows: 0, initializes: false, written: 0 };
        assert(job.remaining() =~= steps.deep_view());
        job
    }

    /// The job that brings the panel up by the transactions `steps`.
    pub(crate) fn bring_up(steps: Vec<Step>) -> (job: Job)
        ensures
            job.remaining() == steps.deep_view(),
            job.initializes(),
            job.written() == 0,
    {
        let job = Job { steps, next: 0, row: Vec::new(), rows: 0, initializes: true, written: 0 };
        assert(job.remaining() =~= steps.deep_view());
        job
    }

    /// The job that makes the transactions `steps` and then sends `row` as
    /// data `rows` times, each time in a transaction of its own. The row
    /// is held once, however often it is sent.
    pub fn streaming(steps: Vec<Step>, row: Vec<u8>, rows: u16) -> (job: Job)
        ensures
            job.remaining() == steps.deep_view() + repeated_data(row@, rows as nat),
            !job.initializes(),
            job.written() == 0,
    {
        let job = Job { steps, next: 0, row, rows, initializes: false, written: 0 };
        assert(job.remaining() =~= steps.deep_view() + repeated_data(row@, rows as nat));
        job
    }

    /// Whether nothing is left to do.
    pub fn is_done(&self) -> (done: bool)
        ensures
            done == (self.remaining().len() == 0),
    {
        proof {
            use_type_invariant(self);
        }
        self.next == self.steps.len() && self.rows == 0
    }

    /// The number of bytes that the bus has taken of the job so far.
    pub fn bytes_written(&self) -> (written: usize)
        ensures
            written == self.written(),
    {
        self.written
    }

    /// Whether the job, once it has gone through, has brought the panel
    /// up.
    pub fn brings_up(&self) -> (yes: bool)
        ensures
            yes == self.initializes(),
    {
        self.initializes
    }

    /// Takes the job one step further.
    ///
    /// `last` is the outcome of the SPI write of the step before, the
    /// number of bytes that the bus took or its error; `Ok(0)` begins a
    /// job. A failed write ends the job with the bus's error, and nothing
    /// more is put on the bus. Otherwise the next transaction is handed
    /// out, with the DC line changed if and only if it has to change, and
    /// the job ends in success when none is left, with the number of bytes
    /// that the bus took in all.
    pub fn advance(self, spi: &mut InnerTftSpi, last: Result<usize, rppal::spi::Error>) -> (progress:
        Progress)
        ensures
            steps_to(self, old(spi).in_command_phase(), last, progress, final(spi).in_command_phase()),
    {
        proof {
            use_type_invariant(&self);
        }
        let written = match last {
            Err(e) => {
                return Progress::Finished { result: Err(TftError::Spi(e)) };
            },
            Ok(n) => match self.written.checked_add(n) {
                Some(sum) => sum,
                None => usize::MAX,
            },
        };
        let ghost before = self.remaining();
        let ghost rest = repeated_data(self.row@, self.rows as nat);
        if self.next < self.steps.len() {
            let ops = match &self.steps[self.next] {
                Step::Reset => spi.reset_pin(),
                Step::Command { cmd, delay_ms } => spi.write_command_delay(*cmd, *delay_ms),
                Step::Data { bytes, delay_ms } => spi.write_data_delay(bytes.as_slice(), *delay_ms),
            };
            assert(before[0] == self.steps.deep_view()[self.next as int]);
            let job = Job {
                steps: self.steps,
                next: self.next + 1,
                row: self.row,
                rows: self.rows,
                initializes: self.initializes,
                written,
            };
            assert(job.remaining() =~= before.skip(1));
            Progress::Perform { job, ops }
        } else if self.rows > 0 {
            let ops = spi.write_data(self.row.as_slice());
            assert(before =~= rest);
            let job = Job {
                steps: self.steps,
                next: self.next,
                row: self.row,
                rows: self.rows - 1,
                initializes: self.initializes,
                written,
            };
            assert(job.remaining() =~= before.skip(1));
            Progress::Perform { job, ops }
        } else {
            assert(before =~= Seq::<Frame>::empty());
            Progress::Finished { result: Ok(written) }
        }
    }

    /// All the bus operations of the job, as they are handed out one step
    /// after the other when no write fails. Beside a dry run this shows
    /// what stepping adds up to: the signals of [`wire`].
    pub fn rehearse(self, spi: &mut InnerTftSpi) -> (ops: Vec<BusOp>)
        ensures
            ops.deep_view() == wire(old(spi).in_command_phase(), self.remaining()),
            final(spi).in_command_phase() == end_phase(
                old(spi).in_command_phase(),
                self.remaining(),
            ),
    {
        let ghost all = self.remaining();
        let ghost start = spi.in_command_phase();
        let mut ops: Vec<BusOp> = Vec::new();
        let mut job = self;
        assert(ops.deep_view() =~= Seq::<Signal>::empty());
        assert(ops.deep_view() + wire(start, all) =~= wire(start, all));
        loop
            invariant
                ops.deep_view() + wire(spi.in_command_phase(), job.remaining()) == wire(
                    start,
                    all,
                ),
                end_phase(spi.in_command_phase(), job.remaining()) == end_phase(start, all),
                start == old(spi).in_command_phase(),
                all == self.remaining(),
            decreases job.remaining().len(),
        {
            let ghost left = job.remaining();
            let ghost phase = spi.in_command_phase();
            let ghost sent = ops.deep_view();
            match job.advance(spi, Ok(0)) {
                Progress::Perform { job: rest, ops: mut more } => {
                    let ghost added = more.deep_view();
                    ops.append(&mut more);
                    job = rest;
                    assert(ops.deep_view() =~= sent + added);
                    assert(sent + added + wire(frame_phase(phase, left[0]), left.skip(1)) =~= sent
                        + wire(phase, left));
                },
                Progress::Finished { result } => {
                    assert(sent + wire(phase, left) =~= sent);
                    return ops;
                },
            }
        }
    }
}

/// One transaction reaches the controller as it is meant: a command with
/// DC low, data with DC high, whatever the phase before it; the DC line
/// changes only where it has to, and the transport is left knowing the
/// level of the line.
pub proof fn lemma_frame_framing(command: bool, frame: Frame)
    ensures
        received(command, frame_signals(command, frame)) == frame_meaning(frame),
        phase_after(command, frame_signals(command, frame)) == frame_phase(command, frame),
        dc_edges_are_real(command, frame_signals(command, frame)),
        spi_writes(frame_signals(command, frame)) == spi_writes(frame_signals(!command, frame)),
{
    match frame {
        Frame::Reset => {
            lemma_reset_framing(command);
            lemma_reset_framing(!command);
        },
        Frame::Command { cmd, delay_ms } => {
            lemma_command_framing(command, cmd, delay_ms);
            lemma_command_framing(!command, cmd, delay_ms);
        },
        Frame::Data { bytes, delay_ms } => {
            lemma_data_framing(command, bytes, delay_ms);
            lemma_data_framing(!command, bytes, delay_ms);
        },
    }
}

/// DC framing. Whatever the jobs before have left the DC line at, the
/// controller receives every command byte of a job with DC low and every
/// data byte with DC high, in the order of the job and with nothing in
/// between. The DC line is driven only to change its level, and the level
/// that the transport remembers at the end is the level of the line.
pub proof fn lemma_wire_framing(command: bool, frames: Seq<Frame>)
    ensures
        received(command, wire(command, frames)) == meaning(frames),
        phase_after(command, wire(command, frames)) == end_phase(command, frames),
        dc_edges_are_real(command, wire(command, frames)),
    decreases frames.len(),
{
    if frames.len() > 0 {
        let head = frame_signals(command, frames[0]);
        let next = frame_phase(command, frames[0]);
        let tail = wire(next, frames.skip(1));
        lemma_frame_framing(command, frames[0]);
        lemma_wire_framing(next, frames.skip(1));
        lemma_received_concat(command, head, tail);
        lemma_phase_after_concat(command, head, tail);
        lemma_dc_edges_concat(command, head, tail);
    }
}

/// What goes over SPI does not depend on where the DC line stood: two runs
/// of the same transactions send the same bytes, write by write.
pub proof fn lemma_spi_writes_ignore_phase(first: bool, second: bool, frames: Seq<Frame>)
    ensures
        spi_writes(wire(first, frames)) == spi_writes(wire(second, frames)),
    decreases frames.len(),
{
    if frames.len() > 0 {
        lemma_frame_framing(first, frames[0]);
        lemma_frame_framing(second, frames[0]);
        lemma_spi_writes_ignore_phase(
            frame_phase(first, frames[0]),
            frame_phase(second, frames[0]),
            frames.skip(1),
        );
        lemma_spi_writes_concat(
            frame_signals(first, frames[0]),
            wire(frame_phase(first, frames[0]), frames.skip(1)),
        );
        lemma_spi_writes_concat(
            frame_signals(second, frames[0]),
            wire(frame_phase(second, frames[0]), frames.skip(1)),
        );
    }
}

/// The signals of two runs of transactions are those of the first, then
/// those of the second begun in the phase that the first ended in; and so
/// for the phase at the end, for what the transactions mean and for the
/// number of data bytes.
pub proof fn lemma_wire_concat(command: bool, a: Seq<Frame>, b: Seq<Frame>)
    ensures
        wire(command, a + b) == wire(command, a) + wire(end_phase(command, a), b),
        end_phase(command, a + b) == end_phase(end_phase(command, a), b),
        meaning(a + b) == meaning(a) + meaning(b),
        data_len(a + b) == data_len(a) + data_len(b),
    decreases a.len(),
{
    if a.len() == 0 {
        assert(a + b =~= b);
        assert(wire(command, a) + wire(command, b) =~= wire(command, b));
        assert(meaning(a) + meaning(b) =~= meaning(b));
    } else {
        let next = frame_phase(command, a[0]);
        assert((a + b)[0] == a[0]);
        assert((a + b).skip(1) =~= a.skip(1) + b);
        lemma_wire_concat(next, a.skip(1), b);
        assert(wire(command, a + b) =~= wire(command, a) + wire(end_phase(command, a), b));
        assert(meaning(a + b) =~= meaning(a) + meaning(b));
    }
}

/// The same data sent `times` times is `times` times its length in bytes.
pub proof fn lemma_repeated_data_len(bytes: Seq<u8>, times: nat)
    ensures
        data_len(repeated_data(bytes, times)) == times * bytes.len(),
    decreases times,
{
    let all = repeated_data(bytes, times);
    if times > 0 {
        let fewer = repeated_data(bytes, (times - 1) as nat);
        assert(all.skip(1) =~= fewer);
        assert(all[0] == (Frame::Data { bytes, delay_ms: 0 }));
        lemma_repeated_data_len(bytes, (times - 1) as nat);
        assert(data_len(all) == bytes.len() + data_len(fewer));
        assert(times * bytes.len() == (times - 1) * bytes.len() + bytes.len())
            by (nonlinear_arith);
    } else {
        assert(all.len() == 0);
        assert(0 * bytes.len() == 0);
    }
}

/// Jobs in turn. Transactions made one run after the other, each run begun
/// where the one before left the DC line, reach the controller run by run:
/// all of the first as they are meant, then all of the second, and nothing
/// of one between a command of the other and its parameters. So where the
/// bus is held for the length of a job, as many callers as there are see
/// their jobs received whole.
pub proof fn lemma_jobs_in_turn(command: bool, first: Seq<Frame>, second: Seq<Frame>)
    ensures
        received(
            command,
            wire(command, first) + wire(end_phase(command, first), second),
        ) == meaning(first) + meaning(second),
        phase_after(command, wire(command, first) + wire(end_phase(command, first), second))
            == end_phase(end_phase(command, first), second),
{
    lemma_wire_concat(command, first, second);
    lemma_wire_framing(command, first + second);
}

/// A job given up. Where a write fails after `done` transactions, what has
/// gone over the bus is the beginning of what the whole job would have put
/// there, every byte of it arrived as it was meant, and the transport
/// still knows the level of the DC line.
pub proof fn lemma_abandoned_job(command: bool, frames: Seq<Frame>, done: int)
    requires
        0 <= done <= frames.len(),
    ensures
        wire(command, frames) == wire(command, frames.take(done)) + wire(
            end_phase(command, frames.take(done)),
            frames.skip(done),
        ),
        received(command, wire(command, frames.take(done))) == meaning(frames.take(done)),
        phase_after(command, wire(command, frames.take(done))) == end_phase(
            command,
            frames.take(done),
        ),
{
    assert(frames =~= frames.take(done) + frames.skip(done));
    lemma_wire_concat(command, frames.take(done), frames.skip(done));
    lemma_wire_framing(command, frames.take(done));
}

} // verus!
