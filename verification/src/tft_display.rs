//! The controller: the geometry of the screen, the sequence that brings
//! the panel up, and the drawing operations.
//!
//! Every operation hands out a [`Job`]: the transactions that it puts on
//! the bus. Before the panel has been brought up the drawing operations put
//! nothing on the bus: they hand out a job that is done. A window that does
//! not fit the screen is refused in every state.

use vstd::prelude::*;
use crate::color::Color;
use crate::enums::{madctl, spec_madctl, Command, TFTPcbType, TFTRotate};
use crate::error::TftError;
use crate::job::{
    data_len, end_phase, frame_phase, lemma_jobs_in_turn, lemma_repeated_data_len,
    lemma_spi_writes_ignore_phase, lemma_wire_concat, meaning, repeated_data, steps_to, wire,
    Frame, Job, Progress, Step,
};
use crate::bus::{received, spi_writes, Signal};
use crate::tft_spi::{be_bytes, command_signals, reset_signals, sleep_signals, InnerTftSpi};

verus! {

/// The native width of the panel, unless another is set.
pub const DEFAULT_WIDTH: u16 = 320;

/// The native height of the panel, unless another is set.
pub const DEFAULT_HEIGHT: u16 = 480;

/// What the controller knows of the screen.
pub struct DisplayState {
    /// The native width of the panel.
    pub start_width: u16,
    /// The native height of the panel.
    pub start_height: u16,
    /// How the picture is turned.
    pub rotation: TFTRotate,
    /// The board variant.
    pub pcb: TFTPcbType,
    /// Whether the panel has been brought up.
    pub initialized: bool,
}

impl DisplayState {
    /// The logical width: the native width, or the native height in a
    /// quarter turn.
    pub open spec fn width(self) -> u16 {
        if self.rotation.spec_swaps_axes() {
            self.start_height
        } else {
            self.start_width
        }
    }

    /// The logical height: the native height, or the native width in a
    /// quarter turn.
    pub open spec fn height(self) -> u16 {
        if self.rotation.spec_swaps_axes() {
            self.start_width
        } else {
            self.start_height
        }
    }
}

/// A command and its parameters: the command, then the parameters as data,
/// and a wait of `delay_ms` milliseconds after them.
pub open spec fn register_frames(cmd: Command, bytes: Seq<u8>, delay_ms: u64) -> Seq<Frame> {
    seq![Frame::Command { cmd, delay_ms: 0 }, Frame::Data { bytes, delay_ms }]
}

/// A 16-bit word sent as data, the high byte first.
pub open spec fn word_frame(word: u16) -> Frame {
    Frame::Data { bytes: be_bytes(word), delay_ms: 0 }
}

/// The transactions that set the address window to the columns `xs..=xe`
/// and the rows `ys..=ye`.
pub open spec fn window_frames(xs: u16, xe: u16, ys: u16, ye: u16) -> Seq<Frame> {
    seq![
        Frame::Command { cmd: Command::ColumnAddressSet, delay_ms: 0 },
        word_frame(xs),
        word_frame(xe),
        Frame::Command { cmd: Command::RowAddressSet, delay_ms: 0 },
        word_frame(ys),
        word_frame(ye),
    ]
}

/// Why the window of `w` columns from `x` and `h` rows from `y` does not
/// fit a screen of `width` by `height`, if it does not.
///
/// A window whose last column, `x + w - 1`, is not below the width is
/// refused with that column, wherever it begins. The first column is
/// reported only where the last one is on the screen and the first is not,
/// which an empty window at the right edge is. Where the columns fit, the
/// rows are held against the height: the first row, then the last.
pub open spec fn window_error(width: u16, height: u16, x: u16, y: u16, w: u16, h: u16) -> Option<
    TftError,
> {
    let xe = x + w - 1;
    let ye = y + h - 1;
    if xe >= width {
        Some(TftError::Size { given: xe as u16, max: width })
    } else if x >= width {
        Some(TftError::Size { given: x, max: width })
    } else if y >= height {
        Some(TftError::Size { given: y, max: height })
    } else if ye >= height {
        Some(TftError::Size { given: ye as u16, max: height })
    } else {
        None
    }
}

/// Whether the answer for the window can be given in 16 bits: the end
/// that is reported where the window is refused, and the last column and
/// row that are sent where it fits and the panel is up. Every other end
/// may be any number.
pub open spec fn window_is_expressible(
    st: DisplayState,
    x: u16,
    y: u16,
    w: u16,
    h: u16,
) -> bool {
    let xe = x + w - 1;
    let ye = y + h - 1;
    if xe >= st.width() {
        xe <= u16::MAX
    } else if x >= st.width() {
        true
    } else if y >= st.height() {
        true
    } else if ye >= st.height() {
        ye <= u16::MAX
    } else {
        !st.initialized || (xe >= 0 && ye >= 0)
    }
}

/// The three bytes of a pixel on the wire: each channel moved up by two
/// bits, so that its six bits are the high bits of the byte.
pub open spec fn pixel_bytes(color: (u8, u8, u8)) -> Seq<u8> {
    seq![color.0 << 2, color.1 << 2, color.2 << 2]
}

/// A row of `w` pixels of one colour on the wire.
pub open spec fn pixel_row(color: (u8, u8, u8), w: nat) -> Seq<u8> {
    Seq::new(3 * w, |i: int| pixel_bytes(color)[i % 3])
}

/// The width of a rectangle of `w` columns from `x`, cut off at the edge
/// of a screen `width` wide. The same holds of rows and the height.
pub open spec fn clipped(x: u16, w: u16, width: u16) -> u16 {
    if x + w > width {
        (width - x) as u16
    } else {
        w
    }
}

/// Whether filling the rectangle puts anything on the bus: the panel is
/// up, the rectangle begins on the screen and it is not empty.
pub open spec fn fill_is_drawn(st: DisplayState, x: u16, y: u16, w: u16, h: u16) -> bool {
    st.initialized && x < st.width() && y < st.height() && w > 0 && h > 0
}

/// The pixels of a filled rectangle on the wire: one transaction for each
/// row that is on the screen, each the row of pixels that are on it.
pub open spec fn pixel_stream(
    st: DisplayState,
    x: u16,
    y: u16,
    w: u16,
    h: u16,
    color: (u8, u8, u8),
) -> Seq<Frame> {
    repeated_data(
        pixel_row(color, clipped(x, w, st.width()) as nat),
        clipped(y, h, st.height()) as nat,
    )
}

/// The transactions that fill a rectangle: nothing if nothing is drawn,
/// else the address window of the part that is on the screen, the
/// memory-write command and the pixels.
pub open spec fn fill_frames(
    st: DisplayState,
    x: u16,
    y: u16,
    w: u16,
    h: u16,
    color: (u8, u8, u8),
) -> Seq<Frame> {
    if fill_is_drawn(st, x, y, w, h) {
        window_frames(
            x,
            (x + clipped(x, w, st.width()) - 1) as u16,
            y,
            (y + clipped(y, h, st.height()) - 1) as u16,
        ) + seq![Frame::Command { cmd: Command::MemoryWrite, delay_ms: 0 }] + pixel_stream(
            st,
            x,
            y,
            w,
            h,
            color,
        )
    } else {
        Seq::empty()
    }
}

/// Frame rate of 30 Hz with no division of the clock: the first parameter
/// of the three frame-rate registers.
pub const FRAME_RATE_30HZ: u8 = 0x10;

/// 17 clocks per line: the second parameter of the three frame-rate
/// registers.
pub const CLOCKS_PER_LINE_17: u8 = 0x11;

/// Gamma voltage of 4.4375 V, for both polarities.
pub const GAMMA_VOLTAGE: u8 = 0x09;

/// Step-up factor of the operating voltage.
pub const STEP_UP_FACTOR: u8 = 0x41;

/// Step-up frequency of four line periods, for both circuits.
pub const STEP_UP_CYCLE: u8 = 0x44;

/// 18 bits per pixel, on both interfaces.
pub const PIXEL_FORMAT_18BIT: u8 = 0x66;

/// The positive gamma curve.
pub open spec fn positive_gamma() -> Seq<u8> {
    seq![0x0F, 0x1F, 0x1C, 0x0C, 0x0F, 0x08, 0x48, 0x98, 0x37, 0x0A, 0x13, 0x04, 0x11, 0x0D, 0x00]
}

/// The negative gamma curve, which is the digital one too.
pub open spec fn negative_gamma() -> Seq<u8> {
    seq![0x0F, 0x32, 0x2E, 0x0B, 0x0D, 0x05, 0x47, 0x75, 0x37, 0x06, 0x10, 0x03, 0x24, 0x20, 0x00]
}

/// The sequence that brings the panel up. It is the same every time.
///
/// | Step            | Opcode | Parameters    | Wait   |
/// |-----------------|--------|---------------|--------|
/// | hardware reset  |        |               |        |
/// | soft reset      | `01`   |               | 150 ms |
/// | frame rate      | `B1`   | `10 11`       | 10 ms  |
/// | frame rate idle | `B2`   | `10 11`       |        |
/// | frame rate part | `B3`   | `10 11`       |        |
/// | power 1         | `C0`   | `09 09`       | 10 ms  |
/// | power 2         | `C1`   | `41 00`       |        |
/// | power 3, 4, 5   | `C2` `C3` `C4` | `44`  |        |
/// | VCOM            | `C5`   | `00 00 00 00` |        |
/// | pixel format    | `3A`   | `66`          |        |
/// | interface mode  | `B0`   | `00`          |        |
/// | gamma           | `E0` `E1` `E2` | 15 bytes each | |
/// | sleep out       | `11`   |               | 120 ms |
/// | display on      | `29`   |               | 100 ms |
pub open spec fn init_frames() -> Seq<Frame> {
    seq![Frame::Reset, Frame::Command { cmd: Command::SoftReset, delay_ms: 150 }]
        + register_frames(
        Command::FrameRateControlNormal,
        seq![FRAME_RATE_30HZ, CLOCKS_PER_LINE_17],
        10,
    ) + register_frames(
        Command::FrameRateControlIdle,
        seq![FRAME_RATE_30HZ, CLOCKS_PER_LINE_17],
        0,
    ) + register_frames(
        Command::FrameRateControlPartial,
        seq![FRAME_RATE_30HZ, CLOCKS_PER_LINE_17],
        0,
    ) + register_frames(Command::PowerControl1, seq![GAMMA_VOLTAGE, GAMMA_VOLTAGE], 10)
        + register_frames(Command::PowerControl2, seq![STEP_UP_FACTOR, 0x00], 0)
        + register_frames(Command::PowerControl3, seq![STEP_UP_CYCLE], 0) + register_frames(
        Command::PowerControl4,
        seq![STEP_UP_CYCLE],
        0,
    ) + register_frames(Command::PowerControl5, seq![STEP_UP_CYCLE], 0) + register_frames(
        Command::VcomControl1,
        seq![0x00, 0x00, 0x00, 0x00],
        0,
    ) + register_frames(Command::InterfacePixelFormat, seq![PIXEL_FORMAT_18BIT], 0)
        + register_frames(Command::InterfaceModeControl, seq![0x00], 0) + register_frames(
        Command::PositiveGammaControl,
        positive_gamma(),
        0,
    ) + register_frames(Command::NegativeGammaControl, negative_gamma(), 0) + register_frames(
        Command::DigitalGammaControl1,
        negative_gamma(),
        0,
    ) + seq![
        Frame::Command { cmd: Command::SleepOut, delay_ms: 120 },
        Frame::Command { cmd: Command::DisplayOn, delay_ms: 100 },
    ]
}

/// The state that a display is left in by a step of a job: brought up, and
/// with no board variant, once the job that brings it up has gone through;
/// unchanged by every other step.
pub open spec fn state_after_step(
    st: DisplayState,
    job: Job,
    last: Result<usize, rppal::spi::Error>,
) -> DisplayState {
    if last is Ok && job.remaining().len() == 0 && job.initializes() {
        DisplayState { pcb: TFTPcbType::Unspecified, initialized: true, ..st }
    } else {
        st
    }
}

/// The controller of one panel.
#[derive(Debug)]
pub struct TftDisplay {
    pcb_type: TFTPcbType,
    width: u16,
    height: u16,
    start_width: u16,
    start_height: u16,
    rotate: TFTRotate,
    initialized: bool,
}

impl View for TftDisplay {
    type V = DisplayState;

    closed spec fn view(&self) -> DisplayState {
        DisplayState {
            start_width: self.start_width,
            start_height: self.start_height,
            rotation: self.rotate,
            pcb: self.pcb_type,
            initialized: self.initialized,
        }
    }
}

fn push_register(steps: &mut Vec<Step>, cmd: Command, bytes: Vec<u8>, delay_ms: u64)
    ensures
        final(steps).deep_view() == old(steps).deep_view() + register_frames(cmd, bytes@, delay_ms),
{
    steps.push(Step::Command { cmd, delay_ms: 0 });
    steps.push(Step::Data { bytes, delay_ms });
    assert(steps.deep_view() =~= old(steps).deep_view() + register_frames(cmd, bytes@, delay_ms));
}

fn word_step(word: u16) -> (step: Step)
    ensures
        step@ == word_frame(word),
{
    let mut bytes: Vec<u8> = Vec::new();
    bytes.push((word / 256) as u8);
    bytes.push((word % 256) as u8);
    assert(bytes@ =~= be_bytes(word));
    Step::Data { bytes, delay_ms: 0 }
}

fn window_steps(xs: u16, xe: u16, ys: u16, ye: u16) -> (steps: Vec<Step>)
    ensures
        steps.deep_view() == window_frames(xs, xe, ys, ye),
{
    let mut steps: Vec<Step> = Vec::new();
    steps.push(Step::Command { cmd: Command::ColumnAddressSet, delay_ms: 0 });
    steps.push(word_step(xs));
    steps.push(word_step(xe));
    steps.push(Step::Command { cmd: Command::RowAddressSet, delay_ms: 0 });
    steps.push(word_step(ys));
    steps.push(word_step(ye));
    assert(steps.deep_view() =~= window_frames(xs, xe, ys, ye));
    steps
}

fn no_steps() -> (job: Job)
    ensures
        job.remaining() == Seq::<Frame>::empty(),
        !job.initializes(),
        job.written() == 0,
{
    let steps: Vec<Step> = Vec::new();
    let job = Job::from_steps(steps);
    assert(job.remaining() =~= Seq::<Frame>::empty());
    job
}

impl TftDisplay {
    #[verifier::type_invariant]
    spec fn size_follows_rotation(self) -> bool {
        &&& self.width == self@.width()
        &&& self.height == self@.height()
    }

    /// The controller of a panel of 320 by 480 that is not turned, of no
    /// known board variant, and not yet brought up.
    pub fn new() -> (display: TftDisplay)
        ensures
            display@ == (DisplayState {
                start_width: DEFAULT_WIDTH,
                start_height: DEFAULT_HEIGHT,
                rotation: TFTRotate::Degrees0,
                pcb: TFTPcbType::Unspecified,
                initialized: false,
            }),
    {
        TftDisplay {
            pcb_type: TFTPcbType::Unspecified,
            width: DEFAULT_WIDTH,
            height: DEFAULT_HEIGHT,
            start_width: DEFAULT_WIDTH,
            start_height: DEFAULT_HEIGHT,
            rotate: TFTRotate::Degrees0,
            initialized: false,
        }
    }

    /// Sets the native size of the panel. The offsets are not used: the
    /// visible region begins at the controller's origin.
    pub fn init_screen_size(&mut self, _x_offset: u16, _y_offset: u16, width: u16, height: u16)
        ensures
            final(self)@ == (DisplayState {
                start_width: width,
                start_height: height,
                ..old(self)@
            }),
    {
        proof {
            use_type_invariant(&*self);
        }
        let swapped = self.rotate.swaps_axes();
        *self = TftDisplay {
            pcb_type: self.pcb_type,
            width: if swapped {
                height
            } else {
                width
            },
            height: if swapped {
                width
            } else {
                height
            },
            start_width: width,
            start_height: height,
            rotate: self.rotate,
            initialized: self.initialized,
        };
    }

    /// Tells the board variant. Bringing the panel up forgets it.
    pub fn init_pcb_type(&mut self, pcb_type: TFTPcbType)
        ensures
            final(self)@ == (DisplayState { pcb: pcb_type, ..old(self)@ }),
    {
        proof {
            use_type_invariant(&*self);
        }
        *self = TftDisplay {
            pcb_type,
            width: self.width,
            height: self.height,
            start_width: self.start_width,
            start_height: self.start_height,
            rotate: self.rotate,
            initialized: self.initialized,
        };
    }

    /// The logical width of the screen.
    pub fn width(&self) -> (width: u16)
        ensures
            width == self@.width(),
    {
        proof {
            use_type_invariant(self);
        }
        self.width
    }

    /// The logical height of the screen.
    pub fn height(&self) -> (height: u16)
        ensures
            height == self@.height(),
    {
        proof {
            use_type_invariant(self);
        }
        self.height
    }

    /// How the picture is turned.
    pub fn rotation(&self) -> (rotation: TFTRotate)
        ensures
            rotation == self@.rotation,
    {
        self.rotate
    }

    /// The board variant.
    pub fn pcb_type(&self) -> (pcb: TFTPcbType)
        ensures
            pcb == self@.pcb,
    {
        self.pcb_type
    }

    /// Whether the panel has been brought up.
    pub fn is_initialized(&self) -> (initialized: bool)
        ensures
            initialized == self@.initialized,
    {
        self.initialized
    }

    /// Turns the picture, and hands out the job that tells the panel: the
    /// Memory Access Control register written with the byte for `rotate`
    /// on this board. The logical width and height follow the rotation at
    /// once, whatever becomes of the job. Before the panel is up nothing
    /// changes.
    pub fn set_rotation(&mut self, rotate: TFTRotate) -> (job: Job)
        ensures
            !job.initializes(),
            job.written() == 0,
            old(self)@.initialized ==> {
                &&& final(self)@ == (DisplayState { rotation: rotate, ..old(self)@ })
                &&& job.remaining() == register_frames(
                    Command::MemoryAccessControl,
                    seq![spec_madctl(rotate, old(self)@.pcb)],
                    0,
                )
            },
            !old(self)@.initialized ==> {
                &&& final(self)@ == old(self)@
                &&& job.remaining() == Seq::<Frame>::empty()
            },
    {
        proof {
            use_type_invariant(&*self);
        }
        if !self.initialized {
            return no_steps();
        }
        let swapped = rotate.swaps_axes();
        let byte = madctl(rotate, self.pcb_type);
        *self = TftDisplay {
            pcb_type: self.pcb_type,
            width: if swapped {
                self.start_height
            } else {
                self.start_width
            },
            height: if swapped {
                self.start_width
            } else {
                self.start_height
            },
            start_width: self.start_width,
            start_height: self.start_height,
            rotate,
            initialized: self.initialized,
        };
        let mut steps: Vec<Step> = Vec::new();
        let bytes: Vec<u8> = vec![byte];
        assert(bytes@ =~= seq![spec_madctl(rotate, old(self)@.pcb)]);
        push_register(&mut steps, Command::MemoryAccessControl, bytes, 0);
        assert(steps.deep_view() =~= register_frames(
            Command::MemoryAccessControl,
            seq![spec_madctl(rotate, old(self)@.pcb)],
            0,
        ));
        Job::from_steps(steps)
    }

    /// The job that fills the whole screen with `color`.
    pub fn fill_screen(&self, color: Color) -> (job: Job)
        ensures
            job.remaining() == fill_frames(
                self@,
                0,
                0,
                self@.width(),
                self@.height(),
                color@,
            ),
            !job.initializes(),
            job.written() == 0,
    {
        let width = self.width();
        let height = self.height();
        self.fill_rectangle(0, 0, width, height, color)
    }

    /// The job that fills the rectangle of `w` columns from `x` and `h`
    /// rows from `y` with `color`.
    ///
    /// What lies beyond the right or the lower edge is cut off. A
    /// rectangle that begins beyond an edge, or is empty, is not drawn:
    /// the job is done from the start. Else the job sets the address
    /// window to the part on the screen, sends the memory-write command,
    /// and then the pixels row by row, three bytes each. The row is built
    /// once and sent once for each row of the rectangle.
    pub fn fill_rectangle(&self, x: u16, y: u16, w: u16, h: u16, color: Color) -> (job: Job)
        ensures
            job.remaining() == fill_frames(self@, x, y, w, h, color@),
            !job.initializes(),
            job.written() == 0,
    {
        proof {
            use_type_invariant(self);
        }
        if !self.initialized || x >= self.width || y >= self.height || w == 0 || h == 0 {
            return no_steps();
        }
        let w: u16 = if w > self.width - x {
            self.width - x
        } else {
            w
        };
        let h: u16 = if h > self.height - y {
            self.height - y
        } else {
            h
        };
        let r: u8 = color.red() << 2;
        let g: u8 = color.green() << 2;
        let b: u8 = color.blue() << 2;
        let mut data: Vec<u8> = Vec::new();
        let mut i: u16 = 0;
        while i < w
            invariant
                i <= w,
                data@ == pixel_row(color@, i as nat),
                r == color@.0 << 2,
                g == color@.1 << 2,
                b == color@.2 << 2,
            decreases w - i,
        {
            data.push(r);
            data.push(g);
            data.push(b);
            i += 1;
            assert(data@ =~= pixel_row(color@, i as nat));
        }
        let mut steps = window_steps(x, x + (w - 1), y, y + (h - 1));
        let ghost window = steps.deep_view();
        steps.push(Step::Command { cmd: Command::MemoryWrite, delay_ms: 0 });
        assert(steps.deep_view() =~= window + seq![
            Frame::Command { cmd: Command::MemoryWrite, delay_ms: 0 },
        ]);
        Job::streaming(steps, data, h)
    }

    /// Whether [`TftDisplay::set_addr_window`] can give its answer for the
    /// window: whether the end that it has to report or to send is a
    /// number of 16 bits.
    pub fn can_set_addr_window(&self, x: u16, y: u16, w: u16, h: u16) -> (can: bool)
        ensures
            can == window_is_expressible(self@, x, y, w, h),
    {
        proof {
            use_type_invariant(self);
        }
        let xe: i32 = x as i32 + w as i32 - 1;
        let ye: i32 = y as i32 + h as i32 - 1;
        if xe >= self.width as i32 {
            xe <= 0xFFFF
        } else if x >= self.width {
            true
        } else if y >= self.height {
            true
        } else if ye >= self.height as i32 {
            ye <= 0xFFFF
        } else {
            !self.initialized || (xe >= 0 && ye >= 0)
        }
    }

    /// The job that sets the address window to `w` columns from `x` and
    /// `h` rows from `y`: the column-address command with the first and
    /// the last column, then the row-address command with the first and
    /// the last row, each a 16-bit word with the high byte first.
    ///
    /// A window with an end outside the screen is refused, whether the
    /// panel is up or not, and nothing is handed out. One whose last
    /// column is not below the width is refused with that column and the
    /// width, wherever it begins; see [`window_error`] for the other ends.
    /// A window that fits is set if the panel is up; before that there is
    /// nothing to do, and the job is done from the start.
    ///
    /// The end that is reported, and the last column and row that are
    /// sent, have to be numbers of 16 bits: see
    /// [`TftDisplay::can_set_addr_window`].
    pub fn set_addr_window(&self, x: u16, y: u16, w: u16, h: u16) -> (res: Result<Job, TftError>)
        requires
            window_is_expressible(self@, x, y, w, h),
        ensures
            match window_error(self@.width(), self@.height(), x, y, w, h) {
                Some(e) => res == Err::<Job, TftError>(e),
                None => res is Ok && res->Ok_0.remaining() == (if self@.initialized {
                    window_frames(x, (x + w - 1) as u16, y, (y + h - 1) as u16)
                } else {
                    Seq::<Frame>::empty()
                }),
            },
            res matches Ok(job) ==> !job.initializes() && job.written() == 0,
    {
        proof {
            use_type_invariant(self);
        }
        let xe: i32 = x as i32 + w as i32 - 1;
        let ye: i32 = y as i32 + h as i32 - 1;
        if xe >= self.width as i32 {
            return Err(TftError::Size { given: xe as u16, max: self.width });
        } else if x >= self.width {
            return Err(TftError::Size { given: x, max: self.width });
        } else if y >= self.height {
            return Err(TftError::Size { given: y, max: self.height });
        } else if ye >= self.height as i32 {
            return Err(TftError::Size { given: ye as u16, max: self.height });
        }
        if !self.initialized {
            return Ok(no_steps());
        }
        Ok(Job::from_steps(window_steps(x, xe as u16, y, ye as u16)))
    }

    /// The job that brings the panel up: the hardware reset, the soft
    /// reset, and the registers of [`init_frames`] in their order, with
    /// their waits. It is the same whatever the state of the display, and
    /// can be run again.
    pub fn initialize(&self) -> (job: Job)
        ensures
            job.remaining() == init_frames(),
            job.initializes(),
            job.written() == 0,
    {
        let mut steps: Vec<Step> = Vec::new();
        steps.push(Step::Reset);
        steps.push(Step::Command { cmd: Command::SoftReset, delay_ms: 150 });
        assert(steps.deep_view() =~= seq![
            Frame::Reset,
            Frame::Command { cmd: Command::SoftReset, delay_ms: 150 },
        ]);
        let frame_rate: Vec<u8> = vec![FRAME_RATE_30HZ, CLOCKS_PER_LINE_17];
        assert(frame_rate@ =~= seq![FRAME_RATE_30HZ, CLOCKS_PER_LINE_17]);
        push_register(&mut steps, Command::FrameRateControlNormal, frame_rate, 10);
        let frame_rate: Vec<u8> = vec![FRAME_RATE_30HZ, CLOCKS_PER_LINE_17];
        assert(frame_rate@ =~= seq![FRAME_RATE_30HZ, CLOCKS_PER_LINE_17]);
        push_register(&mut steps, Command::FrameRateControlIdle, frame_rate, 0);
        let frame_rate: Vec<u8> = vec![FRAME_RATE_30HZ, CLOCKS_PER_LINE_17];
        assert(frame_rate@ =~= seq![FRAME_RATE_30HZ, CLOCKS_PER_LINE_17]);
        push_register(&mut steps, Command::FrameRateControlPartial, frame_rate, 0);
        let voltage: Vec<u8> = vec![GAMMA_VOLTAGE, GAMMA_VOLTAGE];
        assert(voltage@ =~= seq![GAMMA_VOLTAGE, GAMMA_VOLTAGE]);
        push_register(&mut steps, Command::PowerControl1, voltage, 10);
        let factor: Vec<u8> = vec![STEP_UP_FACTOR, 0x00];
        assert(factor@ =~= seq![STEP_UP_FACTOR, 0x00u8]);
        push_register(&mut steps, Command::PowerControl2, factor, 0);
        let cycle: Vec<u8> = vec![STEP_UP_CYCLE];
        assert(cycle@ =~= seq![STEP_UP_CYCLE]);
        push_register(&mut steps, Command::PowerControl3, cycle, 0);
        let cycle: Vec<u8> = vec![STEP_UP_CYCLE];
        assert(cycle@ =~= seq![STEP_UP_CYCLE]);
        push_register(&mut steps, Command::PowerControl4, cycle, 0);
        let cycle: Vec<u8> = vec![STEP_UP_CYCLE];
        assert(cycle@ =~= seq![STEP_UP_CYCLE]);
        push_register(&mut steps, Command::PowerControl5, cycle, 0);
        let vcom: Vec<u8> = vec![0x00, 0x00, 0x00, 0x00];
        assert(vcom@ =~= seq![0x00u8, 0x00u8, 0x00u8, 0x00u8]);
        push_register(&mut steps, Command::VcomControl1, vcom, 0);
        let format: Vec<u8> = vec![PIXEL_FORMAT_18BIT];
        assert(format@ =~= seq![PIXEL_FORMAT_18BIT]);
        push_register(&mut steps, Command::InterfacePixelFormat, format, 0);
        let mode: Vec<u8> = vec![0x00];
        assert(mode@ =~= seq![0x00u8]);
        push_register(&mut steps, Command::InterfaceModeControl, mode, 0);
        let gamma: Vec<u8> = vec![
            0x0F, 0x1F, 0x1C, 0x0C, 0x0F, 0x08, 0x48, 0x98, 0x37, 0x0A, 0x13, 0x04, 0x11, 0x0D, 0x00,
        ];
        assert(gamma@ =~= positive_gamma());
        push_register(&mut steps, Command::PositiveGammaControl, gamma, 0);
        let gamma: Vec<u8> = vec![
            0x0F, 0x32, 0x2E, 0x0B, 0x0D, 0x05, 0x47, 0x75, 0x37, 0x06, 0x10, 0x03, 0x24, 0x20, 0x00,
        ];
        assert(gamma@ =~= negative_gamma());
        push_register(&mut steps, Command::NegativeGammaControl, gamma, 0);
        let gamma: Vec<u8> = vec![
            0x0F, 0x32, 0x2E, 0x0B, 0x0D, 0x05, 0x47, 0x75, 0x37, 0x06, 0x10, 0x03, 0x24, 0x20, 0x00,
        ];
        assert(gamma@ =~= negative_gamma());
        push_register(&mut steps, Command::DigitalGammaControl1, gamma, 0);
        let ghost registers = steps.deep_view();
        steps.push(Step::Command { cmd: Command::SleepOut, delay_ms: 120 });
        steps.push(Step::Command { cmd: Command::DisplayOn, delay_ms: 100 });
        assert(steps.deep_view() =~= registers + seq![
            Frame::Command { cmd: Command::SleepOut, delay_ms: 120 },
            Frame::Command { cmd: Command::DisplayOn, delay_ms: 100 },
        ]);
        Job::bring_up(steps)
    }

    /// Takes a job of this display one step further, as [`Job::advance`]
    /// does, and keeps the display's books: when the job that brings the
    /// panel up has gone through, the panel is up and its board variant is
    /// forgotten.
    pub fn advance(
        &mut self,
        job: Job,
        spi: &mut InnerTftSpi,
        last: Result<usize, rppal::spi::Error>,
    ) -> (progress: Progress)
        ensures
            steps_to(job, old(spi).in_command_phase(), last, progress, final(spi).in_command_phase()),
            final(self)@ == state_after_step(old(self)@, job, last),
    {
        proof {
            use_type_invariant(&*self);
        }
        let brings_up = job.brings_up();
        let progress = job.advance(spi, last);
        if brings_up {
            match &progress {
                Progress::Finished { result: Ok(_) } => {
                    *self = TftDisplay {
                        pcb_type: TFTPcbType::Unspecified,
                        width: self.width,
                        height: self.height,
                        start_width: self.start_width,
                        start_height: self.start_height,
                        rotate: self.rotate,
                        initialized: true,
                    };
                },
                _ => {},
            }
        }
        progress
    }
}

/// Between a command and its parameters the DC line goes from low to high
/// exactly once, and nothing else goes over the bus: a register write is
/// the command's own transaction, the one change of the line, the
/// parameters in one write, and the wait.
pub proof fn lemma_register_wire(command: bool, cmd: Command, bytes: Seq<u8>, delay_ms: u64)
    ensures
        wire(command, register_frames(cmd, bytes, delay_ms)) == command_signals(command, cmd, 0)
            + seq![Signal::Dc { high: true }, Signal::Write { bytes }] + sleep_signals(delay_ms),
        !end_phase(command, register_frames(cmd, bytes, delay_ms)),
{
    let f = register_frames(cmd, bytes, delay_ms);
    reveal_with_fuel(wire, 3);
    reveal_with_fuel(end_phase, 3);
    assert(f.skip(1)[0] == f[1]);
    assert(f.skip(1).skip(1) =~= Seq::<Frame>::empty());
    assert(wire(command, f) =~= command_signals(command, cmd, 0) + seq![
        Signal::Dc { high: true },
        Signal::Write { bytes },
    ] + sleep_signals(delay_ms));
}

/// Window arithmetic. The controller receives the column-address command
/// with the first and the last column, then the row-address command with
/// the first and the last row, each word with its high byte first.
pub proof fn lemma_window_meaning(xs: u16, xe: u16, ys: u16, ye: u16)
    ensures
        meaning(window_frames(xs, xe, ys, ye)) == seq![
            (true, seq![0x2Au8]),
            (false, be_bytes(xs)),
            (false, be_bytes(xe)),
            (true, seq![0x2Bu8]),
            (false, be_bytes(ys)),
            (false, be_bytes(ye)),
        ],
        data_len(window_frames(xs, xe, ys, ye)) == 8,
{
    let f = window_frames(xs, xe, ys, ye);
    reveal_with_fuel(meaning, 7);
    reveal_with_fuel(data_len, 7);
    assert(f.skip(1).skip(1).skip(1).skip(1).skip(1).skip(1) =~= Seq::<Frame>::empty());
    assert(f.skip(1)[0] == f[1]);
    assert(f.skip(1).skip(1)[0] == f[2]);
    assert(f.skip(1).skip(1).skip(1)[0] == f[3]);
    assert(f.skip(1).skip(1).skip(1).skip(1)[0] == f[4]);
    assert(f.skip(1).skip(1).skip(1).skip(1).skip(1)[0] == f[5]);
    assert(meaning(f) =~= seq![
        (true, seq![0x2Au8]),
        (false, be_bytes(xs)),
        (false, be_bytes(xe)),
        (true, seq![0x2Bu8]),
        (false, be_bytes(ys)),
        (false, be_bytes(ye)),
    ]);
}

/// A window fits, and is set, exactly when its four ends are on the
/// screen.
pub proof fn lemma_window_fits(width: u16, height: u16, x: u16, y: u16, w: u16, h: u16)
    ensures
        window_error(width, height, x, y, w, h) is None <==> x < width && x + w - 1 < width && y
            < height && y + h - 1 < height,
{
}

/// Bounds rejection. A window whose last column does not lie below the
/// width is refused with that column and the width, wherever it begins.
/// Where the columns fit, a window that begins beyond the lower edge is
/// refused with its first row, and one that begins above it and whose last
/// row does not lie below the height with that row and the height.
pub proof fn lemma_window_rejects(width: u16, height: u16, x: u16, y: u16, w: u16, h: u16)
    ensures
        width <= x + w - 1 <= u16::MAX ==> ({
            &&& window_error(width, height, x, y, w, h) matches Some(TftError::Size { given, max })
            &&& given == x + w - 1
            &&& max == width
        }),
        x < width && x + w - 1 < width && y >= height ==> window_error(
            width,
            height,
            x,
            y,
            w,
            h,
        ) == Some(TftError::Size { given: y, max: height }),
        x < width && x + w - 1 < width && y < height && height <= y + h - 1 <= u16::MAX ==> ({
            &&& window_error(width, height, x, y, w, h) matches Some(TftError::Size { given, max })
            &&& given == y + h - 1
            &&& max == height
        }),
{
}

/// The first column is reported only of one window: the empty one that
/// begins at the right edge, whose last column is the last of the screen.
pub proof fn lemma_first_column_is_reported(
    width: u16,
    height: u16,
    x: u16,
    y: u16,
    w: u16,
    h: u16,
)
    ensures
        x >= width && x + w - 1 < width ==> w == 0 && x == width && window_error(
            width,
            height,
            x,
            y,
            w,
            h,
        ) == Some(TftError::Size { given: x, max: width }),
{
}

/// The window that a display is asked for can be answered in 16 bits
/// wherever its last column and its last row are numbers of 16 bits, and
/// wherever it is not empty and fits.
pub proof fn lemma_window_is_expressible(st: DisplayState, x: u16, y: u16, w: u16, h: u16)
    ensures
        0 <= x + w - 1 <= u16::MAX && 0 <= y + h - 1 <= u16::MAX ==> window_is_expressible(
            st,
            x,
            y,
            w,
            h,
        ),
        w >= 1 && h >= 1 && window_error(st.width(), st.height(), x, y, w, h) is None
            ==> window_is_expressible(st, x, y, w, h),
{
}

/// Register writes in turn. Two register writes made one after the other,
/// in whichever order, reach the controller each as a whole: the command of
/// the first with DC low, its parameters with DC high, and only then the
/// command and the parameters of the second. Nothing of one lies between
/// the other's command and its parameters.
pub proof fn lemma_register_writes_in_turn(
    command: bool,
    first: Command,
    first_bytes: Seq<u8>,
    second: Command,
    second_bytes: Seq<u8>,
)
    ensures
        received(
            command,
            wire(command, register_frames(first, first_bytes, 0)) + wire(
                false,
                register_frames(second, second_bytes, 0),
            ),
        ) == seq![
            (true, seq![first.spec_opcode()]),
            (false, first_bytes),
            (true, seq![second.spec_opcode()]),
            (false, second_bytes),
        ],
{
    let a = register_frames(first, first_bytes, 0);
    let b = register_frames(second, second_bytes, 0);
    lemma_register_wire(command, first, first_bytes, 0);
    lemma_jobs_in_turn(command, a, b);
    lemma_register_meaning(first, first_bytes, 0);
    lemma_register_meaning(second, second_bytes, 0);
    assert(meaning(a) + meaning(b) =~= seq![
        (true, seq![first.spec_opcode()]),
        (false, first_bytes),
        (true, seq![second.spec_opcode()]),
        (false, second_bytes),
    ]);
}

/// A register write reaches the controller as the command, then the
/// parameters as data.
pub proof fn lemma_register_meaning(cmd: Command, bytes: Seq<u8>, delay_ms: u64)
    ensures
        meaning(register_frames(cmd, bytes, delay_ms)) == seq![
            (true, seq![cmd.spec_opcode()]),
            (false, bytes),
        ],
{
    let f = register_frames(cmd, bytes, delay_ms);
    reveal_with_fuel(meaning, 3);
    assert(f.skip(1)[0] == f[1]);
    assert(f.skip(1).skip(1) =~= Seq::<Frame>::empty());
    assert(meaning(f) =~= seq![(true, seq![cmd.spec_opcode()]), (false, bytes)]);
}

/// A channel of six bits moved up by two is four times the channel: its
/// six bits are the high bits of the byte, the two low bits are zero, and
/// nothing is lost.
pub proof fn lemma_wire_byte(channel: u8)
    requires
        channel <= 0x3F,
    ensures
        channel << 2 == 4 * channel,
        (channel << 2) >> 2 == channel,
        (channel << 2) & 0x03 == 0,
{
    assert(channel << 2 == 4 * channel) by (bit_vector)
        requires
            channel <= 0x3Fu8,
    ;
    assert((channel << 2) >> 2 == channel) by (bit_vector)
        requires
            channel <= 0x3Fu8,
    ;
    assert((channel << 2) & 0x03 == 0) by (bit_vector);
}

/// A row of pixels is three bytes for each pixel, and every pixel in it is
/// the three bytes of the colour.
pub proof fn lemma_pixel_row(color: (u8, u8, u8), w: nat)
    ensures
        pixel_row(color, w).len() == 3 * w,
        forall|k: int|
            0 <= k < w ==> #[trigger] pixel_row(color, w).subrange(3 * k, 3 * k + 3)
                == pixel_bytes(color),
{
    assert forall|k: int| 0 <= k < w implies #[trigger] pixel_row(color, w).subrange(
        3 * k,
        3 * k + 3,
    ) == pixel_bytes(color) by {
        assert(pixel_row(color, w).subrange(3 * k, 3 * k + 3) =~= pixel_bytes(color));
    }
}

/// Pixel count and clipping. Where a rectangle is drawn, the bytes sent
/// after the memory-write command are three for each pixel of its part on
/// the screen: `3 * w * h` where it lies on the screen whole, and
/// `3 * (width - x) * min(h, height - y)` where it goes beyond the right
/// edge. Where it is not drawn, nothing is sent at all.
pub proof fn lemma_fill_data_len(
    st: DisplayState,
    x: u16,
    y: u16,
    w: u16,
    h: u16,
    color: (u8, u8, u8),
)
    ensures
        fill_is_drawn(st, x, y, w, h) ==> {
            &&& data_len(pixel_stream(st, x, y, w, h, color)) == 3 * clipped(x, w, st.width())
                * clipped(y, h, st.height())
            &&& data_len(fill_frames(st, x, y, w, h, color)) == 8 + 3 * clipped(x, w, st.width())
                * clipped(y, h, st.height())
            &&& x + w <= st.width() && y + h <= st.height() ==> data_len(
                pixel_stream(st, x, y, w, h, color),
            ) == 3 * w * h
            &&& x + w > st.width() ==> data_len(pixel_stream(st, x, y, w, h, color)) == 3 * (
            st.width() - x) * (if h <= st.height() - y {
                h as int
            } else {
                st.height() - y
            })
        },
        !fill_is_drawn(st, x, y, w, h) ==> fill_frames(st, x, y, w, h, color).len() == 0,
{
    if fill_is_drawn(st, x, y, w, h) {
        let cw = clipped(x, w, st.width()) as nat;
        let ch = clipped(y, h, st.height()) as nat;
        let row = pixel_row(color, cw);
        let xe = (x + cw - 1) as u16;
        let ye = (y + ch - 1) as u16;
        lemma_repeated_data_len(row, ch);
        assert(ch * (3 * cw) == 3 * cw * ch) by (nonlinear_arith);
        let window = window_frames(x, xe, y, ye);
        let ramwr = seq![Frame::Command { cmd: Command::MemoryWrite, delay_ms: 0 }];
        lemma_window_meaning(x, xe, y, ye);
        lemma_wire_concat(true, window, ramwr);
        lemma_wire_concat(true, window + ramwr, pixel_stream(st, x, y, w, h, color));
        reveal_with_fuel(data_len, 2);
        assert(ramwr.skip(1) =~= Seq::<Frame>::empty());
        assert(data_len(ramwr) == 0);
    }
}

/// Every pixel that a fill addresses lies on the screen: where a rectangle
/// is drawn, the window that is set begins at its corner, ends in its last
/// column and row on the screen, and fits.
pub proof fn lemma_fill_window_fits(st: DisplayState, x: u16, y: u16, w: u16, h: u16)
    requires
        fill_is_drawn(st, x, y, w, h),
    ensures
        1 <= clipped(x, w, st.width()) <= w,
        1 <= clipped(y, h, st.height()) <= h,
        x <= x + clipped(x, w, st.width()) - 1 < st.width(),
        y <= y + clipped(y, h, st.height()) - 1 < st.height(),
        window_error(
            st.width(),
            st.height(),
            x,
            y,
            clipped(x, w, st.width()),
            clipped(y, h, st.height()),
        ) is None,
{
}

/// What the controller receives of a fill that is drawn: the window, the
/// memory-write command, and then nothing but the rows of pixels, as data.
pub proof fn lemma_fill_meaning(
    st: DisplayState,
    x: u16,
    y: u16,
    w: u16,
    h: u16,
    color: (u8, u8, u8),
)
    requires
        fill_is_drawn(st, x, y, w, h),
    ensures
        meaning(fill_frames(st, x, y, w, h, color)) == meaning(
            window_frames(
                x,
                (x + clipped(x, w, st.width()) - 1) as u16,
                y,
                (y + clipped(y, h, st.height()) - 1) as u16,
            ),
        ) + seq![(true, seq![0x2Cu8])] + Seq::new(
            clipped(y, h, st.height()) as nat,
            |i: int| (false, pixel_row(color, clipped(x, w, st.width()) as nat)),
        ),
{
    let cw = clipped(x, w, st.width()) as nat;
    let ch = clipped(y, h, st.height()) as nat;
    let row = pixel_row(color, cw);
    let window = window_frames(x, (x + cw - 1) as u16, y, (y + ch - 1) as u16);
    let ramwr = seq![Frame::Command { cmd: Command::MemoryWrite, delay_ms: 0 }];
    lemma_wire_concat(true, window, ramwr);
    lemma_wire_concat(true, window + ramwr, repeated_data(row, ch));
    reveal_with_fuel(meaning, 2);
    assert(ramwr.skip(1) =~= Seq::<Frame>::empty());
    assert(meaning(ramwr) =~= seq![(true, seq![0x2Cu8])]);
    lemma_repeated_data_meaning(row, ch);
}

/// The same data sent `times` times reaches the controller as data,
/// `times` times.
pub proof fn lemma_repeated_data_meaning(bytes: Seq<u8>, times: nat)
    ensures
        meaning(repeated_data(bytes, times)) == Seq::new(times, |i: int| (false, bytes)),
    decreases times,
{
    let all = repeated_data(bytes, times);
    if times > 0 {
        let fewer = repeated_data(bytes, (times - 1) as nat);
        assert(all.skip(1) =~= fewer);
        assert(all[0] == (Frame::Data { bytes, delay_ms: 0 }));
        lemma_repeated_data_meaning(bytes, (times - 1) as nat);
        assert(meaning(all) =~= Seq::new(times, |i: int| (false, bytes)));
    } else {
        assert(meaning(all) =~= Seq::new(times, |i: int| (false, bytes)));
    }
}

/// Reset first, and once. Bringing the panel up begins with the hardware
/// reset, before anything goes over SPI: the reset line high, low, high,
/// each level held for ten milliseconds. No other step of the sequence
/// resets.
pub proof fn lemma_initialize_resets_first(command: bool)
    ensures
        init_frames().len() == 32,
        init_frames()[0] == Frame::Reset,
        forall|i: int| 1 <= i < 32 ==> !(#[trigger] init_frames()[i] is Reset),
        wire(command, init_frames()) == reset_signals() + wire(command, init_frames().skip(1)),
        wire(command, init_frames()).take(6) == reset_signals(),
{
    let tail = wire(command, init_frames().skip(1));
    assert(reset_signals().len() == 6);
    assert((reset_signals() + tail).take(6) =~= reset_signals());
}

/// Bringing up twice. Whatever the phase of the transport before, the
/// sequence sends the same bytes over SPI, write by write, and leaves the
/// transport in the command phase; so a second run right after the first
/// puts the very same signals on the bus as a first run of a new
/// transport.
pub proof fn lemma_initialize_repeats(first: bool, second: bool)
    ensures
        spi_writes(wire(first, init_frames())) == spi_writes(wire(second, init_frames())),
        end_phase(first, init_frames()),
        wire(end_phase(first, init_frames()), init_frames()) == wire(true, init_frames()),
{
    lemma_spi_writes_ignore_phase(first, second, init_frames());
    lemma_ends_in_command_phase(first, init_frames());
}

/// Transactions that end with a command leave the transport in the command
/// phase.
pub proof fn lemma_ends_in_command_phase(command: bool, frames: Seq<Frame>)
    requires
        frames.len() > 0,
        frames.last() is Command,
    ensures
        end_phase(command, frames),
    decreases frames.len(),
{
    if frames.len() > 1 {
        assert(frames.skip(1).last() == frames.last());
        lemma_ends_in_command_phase(frame_phase(command, frames[0]), frames.skip(1));
    } else {
        assert(frames.skip(1).len() == 0);
        assert(end_phase(frame_phase(command, frames[0]), frames.skip(1)) == frame_phase(
            command,
            frames[0],
        ));
    }
}

} // verus!
