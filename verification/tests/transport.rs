use tft_spi::{BusOp, Command, InnerTftSpi, Job, Progress, Step, TftError};

fn write(bytes: &[u8]) -> BusOp {
    BusOp::Write { bytes: bytes.to_vec() }
}

/// Steps a job through on a bus that fails at the write numbered `fail_at`,
/// counted from zero, if there is such a write.
fn run(
    job: Job,
    spi: &mut InnerTftSpi,
    fail_at: Option<usize>,
) -> (Vec<BusOp>, Result<usize, TftError>) {
    let mut trace = Vec::new();
    let mut writes = 0;
    let mut progress = job.advance(spi, Ok(0));
    loop {
        match progress {
            Progress::Perform { job, ops } => {
                let mut outcome = Ok(0);
                for op in &ops {
                    if let BusOp::Write { bytes } = op {
                        outcome = if Some(writes) == fail_at {
                            Err(rppal::spi::Error::ClockSpeedNotSupported(7))
                        } else {
                            Ok(bytes.len())
                        };
                        writes += 1;
                    }
                }
                trace.extend(ops);
                progress = job.advance(spi, outcome);
            }
            Progress::Finished { result } => return (trace, result),
        }
    }
}

/// What the controller receives: every write with the level of DC at its time.
fn received(dc_high_at_start: bool, trace: &[BusOp]) -> Vec<(bool, Vec<u8>)> {
    let mut dc_high = dc_high_at_start;
    let mut seen = Vec::new();
    for op in trace {
        match op {
            BusOp::Dc { high } => {
                assert_ne!(*high, dc_high, "the DC line is driven to the level it has");
                dc_high = *high;
            }
            BusOp::Write { bytes } => seen.push((dc_high, bytes.clone())),
            _ => {}
        }
    }
    seen
}

#[test]
fn new_transport_is_in_command_phase() {
    assert!(InnerTftSpi::new().is_command_phase());
}

#[test]
fn command_in_command_phase_is_the_opcode_alone() {
    let mut spi = InnerTftSpi::new();
    assert_eq!(spi.write_command(Command::MemoryWrite), vec![write(&[0x2C])]);
    assert!(spi.is_command_phase());
}

#[test]
fn data_after_command_raises_dc_once() {
    let mut spi = InnerTftSpi::new();
    assert_eq!(
        spi.write_data(&[1, 2, 3]),
        vec![BusOp::Dc { high: true }, write(&[1, 2, 3])]
    );
    assert!(!spi.is_command_phase());
    assert_eq!(spi.write_data(&[4]), vec![write(&[4])]);
    assert!(!spi.is_command_phase());
}

#[test]
fn command_after_data_lowers_dc_once() {
    let mut spi = InnerTftSpi::new();
    spi.write_data(&[9]);
    assert_eq!(
        spi.write_command(Command::SleepOut),
        vec![BusOp::Dc { high: false }, write(&[0x11])]
    );
    assert_eq!(spi.write_command(Command::DisplayOn), vec![write(&[0x29])]);
}

#[test]
fn delays_follow_the_write_when_not_zero() {
    let mut spi = InnerTftSpi::new();
    assert_eq!(
        spi.write_command_delay(Command::SoftReset, 150),
        vec![write(&[0x01]), BusOp::Sleep { millis: 150 }]
    );
    assert_eq!(spi.write_command_delay(Command::SoftReset, 0), vec![write(&[0x01])]);
    assert_eq!(
        spi.write_data_delay(&[0x10, 0x11], 10),
        vec![BusOp::Dc { high: true }, write(&[0x10, 0x11]), BusOp::Sleep { millis: 10 }]
    );
    assert_eq!(spi.write_data_delay(&[0x10], 0), vec![write(&[0x10])]);
}

#[test]
fn word_goes_high_byte_first() {
    let mut spi = InnerTftSpi::new();
    assert_eq!(
        spi.write_word(0x013F),
        vec![BusOp::Dc { high: true }, write(&[0x01, 0x3F])]
    );
    assert_eq!(spi.write_word(0x0077), vec![write(&[0x00, 0x77])]);
    assert_eq!(spi.write_word(0xFFFE), vec![write(&[0xFF, 0xFE])]);
    assert_eq!(spi.write_word(0), vec![write(&[0, 0])]);
}

#[test]
fn reset_is_high_low_high_with_ten_milliseconds_each() {
    let mut spi = InnerTftSpi::new();
    spi.write_data(&[0]);
    let ops = spi.reset_pin();
    assert_eq!(
        ops,
        vec![
            BusOp::Rst { high: true },
            BusOp::Sleep { millis: 10 },
            BusOp::Rst { high: false },
            BusOp::Sleep { millis: 10 },
            BusOp::Rst { high: true },
            BusOp::Sleep { millis: 10 },
        ]
    );
    assert!(!spi.is_command_phase());
}

#[test]
fn write_reg_is_command_then_data() {
    let mut spi = InnerTftSpi::new();
    let job = InnerTftSpi::write_reg(Command::MemoryAccessControl, &[0x88]);
    assert!(!job.is_done());
    assert!(!job.brings_up());
    let (trace, result) = run(job, &mut spi, None);
    assert_eq!(result.unwrap(), 2);
    assert_eq!(
        trace,
        vec![write(&[0x36]), BusOp::Dc { high: true }, write(&[0x88])]
    );
    assert!(!spi.is_command_phase());
}

#[test]
fn write_reg_stops_at_a_failed_command() {
    let mut spi = InnerTftSpi::new();
    let job = InnerTftSpi::write_reg(Command::MemoryAccessControl, &[0x88]);
    let (trace, result) = run(job, &mut spi, Some(0));
    assert_eq!(trace, vec![write(&[0x36])]);
    assert!(matches!(
        result,
        Err(TftError::Spi(rppal::spi::Error::ClockSpeedNotSupported(7)))
    ));
    assert!(spi.is_command_phase());
}

#[test]
fn write_reg_surfaces_a_failed_data_write() {
    let mut spi = InnerTftSpi::new();
    let job = InnerTftSpi::write_reg(Command::VcomControl1, &[0, 0, 0, 0]);
    let (trace, result) = run(job, &mut spi, Some(1));
    assert_eq!(trace.len(), 3);
    assert!(matches!(
        result,
        Err(TftError::Spi(rppal::spi::Error::ClockSpeedNotSupported(7)))
    ));
    assert!(!spi.is_command_phase());
}

#[test]
fn a_failure_before_the_first_step_puts_nothing_on_the_bus() {
    let mut spi = InnerTftSpi::new();
    let job = InnerTftSpi::write_reg(Command::VcomControl1, &[0]);
    let io = std::io::Error::new(std::io::ErrorKind::BrokenPipe, "bus gone");
    match job.advance(&mut spi, Err(rppal::spi::Error::Io(io))) {
        Progress::Finished { result: Err(TftError::Spi(rppal::spi::Error::Io(e))) } => {
            assert_eq!(e.kind(), std::io::ErrorKind::BrokenPipe);
            assert_eq!(e.to_string(), "bus gone");
        }
        other => panic!("unexpected {other:?}"),
    }
    assert!(spi.is_command_phase());
}

#[test]
fn empty_job_is_done_at_once() {
    let mut spi = InnerTftSpi::new();
    let job = Job::from_steps(Vec::new());
    assert!(job.is_done());
    assert_eq!(job.bytes_written(), 0);
    let (trace, result) = run(job, &mut spi, None);
    assert!(trace.is_empty());
    assert_eq!(result.unwrap(), 0);
}

#[test]
fn commands_arrive_with_dc_low_and_data_with_dc_high() {
    let steps = || {
        vec![
            Step::Data { bytes: vec![1], delay_ms: 0 },
            Step::Data { bytes: vec![2, 3], delay_ms: 5 },
            Step::Command { cmd: Command::ColumnAddressSet, delay_ms: 0 },
            Step::Reset,
            Step::Command { cmd: Command::RowAddressSet, delay_ms: 1 },
            Step::Data { bytes: vec![], delay_ms: 0 },
            Step::Reset,
            Step::Data { bytes: vec![4], delay_ms: 0 },
            Step::Command { cmd: Command::MemoryWrite, delay_ms: 0 },
        ]
    };
    let expected = vec![
        (true, vec![1]),
        (true, vec![2, 3]),
        (false, vec![0x2A]),
        (false, vec![0x2B]),
        (true, vec![]),
        (true, vec![4]),
        (false, vec![0x2C]),
    ];
    for start_in_data in [false, true] {
        let mut spi = InnerTftSpi::new();
        if start_in_data {
            spi.write_data(&[0]);
        }
        let (trace, result) = run(Job::from_steps(steps()), &mut spi, None);
        assert!(result.is_ok());
        assert_eq!(received(start_in_data, &trace), expected);
        assert!(spi.is_command_phase());
    }
}

#[test]
fn streaming_sends_the_row_again_and_again() {
    let mut spi = InnerTftSpi::new();
    let steps = vec![Step::Command { cmd: Command::MemoryWrite, delay_ms: 0 }];
    let job = Job::streaming(steps, vec![0xFC, 0, 0], 3);
    let (trace, result) = run(job, &mut spi, None);
    assert_eq!(result.unwrap(), 1 + 3 * 3);
    assert_eq!(
        trace,
        vec![
            write(&[0x2C]),
            BusOp::Dc { high: true },
            write(&[0xFC, 0, 0]),
            write(&[0xFC, 0, 0]),
            write(&[0xFC, 0, 0]),
        ]
    );
}

#[test]
fn rehearsal_is_what_stepping_hands_out() {
    let steps = || {
        vec![
            Step::Reset,
            Step::Command { cmd: Command::SoftReset, delay_ms: 150 },
            Step::Data { bytes: vec![7, 8], delay_ms: 0 },
            Step::Command { cmd: Command::DisplayOn, delay_ms: 0 },
        ]
    };
    let mut stepped = InnerTftSpi::new();
    let (trace, _) = run(Job::streaming(steps(), vec![1, 2, 3], 2), &mut stepped, None);
    let mut rehearsed = InnerTftSpi::new();
    let all = Job::streaming(steps(), vec![1, 2, 3], 2).rehearse(&mut rehearsed);
    assert_eq!(all, trace);
    assert_eq!(all.len(), 6 + 2 + 2 + 2 + 3);
    assert_eq!(rehearsed.is_command_phase(), stepped.is_command_phase());
}

#[test]
fn errors_read_as_text() {
    assert_eq!(
        TftError::Size { given: 320, max: 320 }.to_string(),
        "Given size: 320, Max size: 320"
    );
    assert_eq!(
        TftError::Size { given: 0, max: 65535 }.to_string(),
        "Given size: 0, Max size: 65535"
    );
    let spi = TftError::from(rppal::spi::Error::ClockSpeedNotSupported(7));
    assert_eq!(spi.to_string(), "SPI Error: Clock speed value not supported: 7");
}

#[test]
fn bytes_written_are_what_the_bus_reports() {
    let mut spi = InnerTftSpi::new();
    let job = InnerTftSpi::write_reg(Command::VcomControl1, &[0, 0, 0, 0]);
    let job = match job.advance(&mut spi, Ok(0)) {
        Progress::Perform { job, ops } => {
            assert_eq!(ops, vec![write(&[0xC5])]);
            assert_eq!(job.bytes_written(), 0);
            job
        }
        other => panic!("unexpected {other:?}"),
    };
    let job = match job.advance(&mut spi, Ok(1)) {
        Progress::Perform { job, ops } => {
            assert_eq!(ops, vec![BusOp::Dc { high: true }, write(&[0, 0, 0, 0])]);
            assert_eq!(job.bytes_written(), 1);
            assert!(job.is_done());
            job
        }
        other => panic!("unexpected {other:?}"),
    };
    // A short write is counted as the bus reports it.
    match job.advance(&mut spi, Ok(3)) {
        Progress::Finished { result } => assert_eq!(result.unwrap(), 4),
        other => panic!("unexpected {other:?}"),
    }
}

#[test]
fn byte_count_stops_at_the_largest_number() {
    let mut spi = InnerTftSpi::new();
    let job = InnerTftSpi::write_reg(Command::VcomControl1, &[0]);
    let job = match job.advance(&mut spi, Ok(usize::MAX - 1)) {
        Progress::Perform { job, .. } => job,
        other => panic!("unexpected {other:?}"),
    };
    assert_eq!(job.bytes_written(), usize::MAX - 1);
    let job = match job.advance(&mut spi, Ok(5)) {
        Progress::Perform { job, .. } => job,
        other => panic!("unexpected {other:?}"),
    };
    assert_eq!(job.bytes_written(), usize::MAX);
    match job.advance(&mut spi, Ok(1)) {
        Progress::Finished { result } => assert_eq!(result.unwrap(), usize::MAX),
        other => panic!("unexpected {other:?}"),
    }
}
