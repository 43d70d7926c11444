//! What reaches the hardware: operations on the SPI bus and on the two
//! control lines, and what the controller makes of them.
//!
//! The driver never touches the hardware. It hands out [`BusOp`]s for its
//! caller to perform, in order. Contracts speak of their mathematical form,
//! [`Signal`].

use vstd::prelude::*;

verus! {

/// The error of an SPI transfer, `rppal::spi::Error`, as the bus hands it
/// over. The driver carries it to its caller and never looks inside:
/// nothing is claimed of what it holds.
#[verifier::external_type_specification]
#[verifier::external_body]
pub struct ExSpiError(rppal::spi::Error);

/// One operation on the hardware, as contracts see it.
pub enum Signal {
    /// Drive the Data/Command line: high for data, low for a command.
    Dc { high: bool },
    /// Drive the reset line, which is active low.
    Rst { high: bool },
    /// Send the bytes over SPI, most significant bit first.
    Write { bytes: Seq<u8> },
    /// Wait for that many milliseconds.
    Sleep { millis: u64 },
}

/// One operation on the hardware, for the caller to perform.
#[derive(Debug, PartialEq, Eq)]
pub enum BusOp {
    /// Drive the Data/Command line: high for data, low for a command.
    Dc { high: bool },
    /// Drive the reset line, which is active low.
    Rst { high: bool },
    /// Send the bytes over SPI, most significant bit first.
    Write { bytes: Vec<u8> },
    /// Wait for that many milliseconds.
    Sleep { millis: u64 },
}

impl View for BusOp {
    type V = Signal;

    open spec fn view(&self) -> Signal {
        match *self {
            BusOp::Dc { high } => Signal::Dc { high },
            BusOp::Rst { high } => Signal::Rst { high },
            BusOp::Write { bytes } => Signal::Write { bytes: bytes@ },
            BusOp::Sleep { millis } => Signal::Sleep { millis },
        }
    }
}

impl DeepView for BusOp {
    type V = Signal;

    open spec fn deep_view(&self) -> Signal {
        self@
    }
}

/// The phase the controller is in after the signals, when it was in the
/// command phase before them if and only if `command`. The command phase
/// is DC low.
pub open spec fn phase_after(command: bool, signals: Seq<Signal>) -> bool
    decreases signals.len(),
{
    if signals.len() == 0 {
        command
    } else {
        match signals.last() {
            Signal::Dc { high } => !high,
            _ => phase_after(command, signals.drop_last()),
        }
    }
}

/// What the controller receives from the signals: each SPI write, with
/// `true` if it arrives in the command phase and `false` if it arrives as
/// data.
pub open spec fn received(command: bool, signals: Seq<Signal>) -> Seq<(bool, Seq<u8>)>
    decreases signals.len(),
{
    if signals.len() == 0 {
        Seq::empty()
    } else {
        let before = received(command, signals.drop_last());
        match signals.last() {
            Signal::Write { bytes } => before.push(
                (phase_after(command, signals.drop_last()), bytes),
            ),
            _ => before,
        }
    }
}

/// The bytes that go over SPI, write by write, whatever the control lines
/// do.
pub open spec fn spi_writes(signals: Seq<Signal>) -> Seq<Seq<u8>>
    decreases signals.len(),
{
    if signals.len() == 0 {
        Seq::empty()
    } else {
        let before = spi_writes(signals.drop_last());
        match signals.last() {
            Signal::Write { bytes } => before.push(bytes),
            _ => before,
        }
    }
}

/// Every change asked of the DC line is a change: the line is never driven
/// to the level it already has.
pub open spec fn dc_edges_are_real(command: bool, signals: Seq<Signal>) -> bool {
    forall|i: int|
        0 <= i < signals.len() ==> (#[trigger] signals[i] matches Signal::Dc { high } ==> high
            == phase_after(command, signals.take(i)))
}

/// The phase after two runs of signals is the phase after the second,
/// begun where the first ended.
pub proof fn lemma_phase_after_concat(command: bool, a: Seq<Signal>, b: Seq<Signal>)
    ensures
        phase_after(command, a + b) == phase_after(phase_after(command, a), b),
    decreases b.len(),
{
    if b.len() == 0 {
        assert(a + b =~= a);
    } else {
        assert((a + b).drop_last() =~= a + b.drop_last());
        assert((a + b).last() == b.last());
        lemma_phase_after_concat(command, a, b.drop_last());
    }
}

/// The controller receives from two runs of signals what it receives from
/// the first, then what it receives from the second begun where the first
/// ended.
pub proof fn lemma_received_concat(command: bool, a: Seq<Signal>, b: Seq<Signal>)
    ensures
        received(command, a + b) == received(command, a) + received(
            phase_after(command, a),
            b,
        ),
    decreases b.len(),
{
    if b.len() == 0 {
        assert(a + b =~= a);
        assert(received(command, a) + Seq::<(bool, Seq<u8>)>::empty() =~= received(command, a));
    } else {
        assert((a + b).drop_last() =~= a + b.drop_last());
        assert((a + b).last() == b.last());
        lemma_received_concat(command, a, b.drop_last());
        lemma_phase_after_concat(command, a, b.drop_last());
        let mid = phase_after(command, a);
        match b.last() {
            Signal::Write { bytes } => {
                assert(received(command, a + b) =~= received(command, a) + received(mid, b));
            },
            _ => {},
        }
    }
}

/// The SPI bytes of two runs of signals are those of the first, then those
/// of the second.
pub proof fn lemma_spi_writes_concat(a: Seq<Signal>, b: Seq<Signal>)
    ensures
        spi_writes(a + b) == spi_writes(a) + spi_writes(b),
    decreases b.len(),
{
    if b.len() == 0 {
        assert(a + b =~= a);
        assert(spi_writes(a) + Seq::<Seq<u8>>::empty() =~= spi_writes(a));
    } else {
        assert((a + b).drop_last() =~= a + b.drop_last());
        assert((a + b).last() == b.last());
        lemma_spi_writes_concat(a, b.drop_last());
        match b.last() {
            Signal::Write { bytes } => {
                assert(spi_writes(a + b) =~= spi_writes(a) + spi_writes(b));
            },
            _ => {},
        }
    }
}

/// Two runs of signals that each change the DC line only for real do so
/// one after the other too.
pub proof fn lemma_dc_edges_concat(command: bool, a: Seq<Signal>, b: Seq<Signal>)
    requires
        dc_edges_are_real(command, a),
        dc_edges_are_real(phase_after(command, a), b),
    ensures
        dc_edges_are_real(command, a + b),
{
    let ab = a + b;
    assert forall|i: int| 0 <= i < ab.len() implies (#[trigger] ab[i] matches Signal::Dc {
        high,
    } ==> high == phase_after(command, ab.take(i))) by {
        if i < a.len() {
            assert(ab[i] == a[i]);
            assert(ab.take(i) =~= a.take(i));
        } else {
            let j = i - a.len();
            assert(ab[i] == b[j]);
            assert(ab.take(i) =~= a + b.take(j));
            lemma_phase_after_concat(command, a, b.take(j));
        }
    }
}

} // verus!
