use rustduino::divisor::{ClockDivisor, InvalidDivisor};
use rustduino::mcu::{Mcu, Record};
use rustduino::prescalar::Prescalar;
use rustduino::protocol::InterruptState;

const ENABLED: InterruptState = InterruptState { enabled: true };
const MASKED: InterruptState = InterruptState { enabled: false };

const LEGAL: [(u32, u8); 9] =
    [(1, 0x0), (2, 0x1), (4, 0x2), (8, 0x3), (16, 0x4), (32, 0x5), (64, 0x6), (128, 0x7), (256, 0x8)];

#[test]
fn enable_clock_8_writes_change_enable_then_code() {
    let mut prescalar = Prescalar::new(Mcu::new(0x00, ENABLED));
    assert_eq!(prescalar.enable_clock(8), Ok(()));
    assert_eq!(prescalar.device().writes(), vec![0x80, 0x03]);
    assert_eq!(prescalar.device().register(), 0x03);
}

#[test]
fn enable_clock_3_is_rejected_without_a_write() {
    let mut prescalar = Prescalar::new(Mcu::new(0x00, ENABLED));
    assert_eq!(prescalar.enable_clock(3), Err(InvalidDivisor { requested: 3 }));
    assert_eq!(prescalar.device().writes(), Vec::<u8>::new());
    assert!(prescalar.device().trace().is_empty());
    assert_eq!(prescalar.device().register(), 0x00);
}

#[test]
fn enable_clock_16_then_1_writes_four_words() {
    let mut prescalar = Prescalar::new(Mcu::new(0x00, ENABLED));
    assert_eq!(prescalar.enable_clock(16), Ok(()));
    assert_eq!(prescalar.enable_clock(1), Ok(()));
    assert_eq!(prescalar.device().writes(), vec![0x80, 0x04, 0x80, 0x00]);
    assert_eq!(prescalar.device().register(), 0x00);
}

#[test]
fn illegal_divisors_leave_the_device_untouched() {
    let illegal: [u32; 12] = [0, 3, 5, 6, 7, 9, 15, 255, 257, 512, 0x8000_0000, u32::MAX];
    for requested in illegal {
        for initial in [0x00u8, 0x03, 0x08, 0x80, 0xFF] {
            for state in [ENABLED, MASKED] {
                let mut prescalar = Prescalar::new(Mcu::new(initial, state));
                assert_eq!(prescalar.enable_clock(requested), Err(InvalidDivisor { requested }));
                let device = prescalar.device();
                assert_eq!(device.register(), initial);
                assert_eq!(device.interrupts_enabled(), state.enabled);
                assert!(!device.interrupt_pending());
                assert!(device.trace().is_empty());
            }
        }
    }
}

#[test]
fn rejected_request_after_a_success_keeps_the_committed_word() {
    let mut prescalar = Prescalar::new(Mcu::new(0x00, MASKED));
    assert_eq!(prescalar.enable_clock(64), Ok(()));
    let before: Vec<Record> = prescalar.device().trace().clone();
    assert_eq!(prescalar.enable_clock(65), Err(InvalidDivisor { requested: 65 }));
    assert_eq!(prescalar.device().register(), 0x06);
    assert_eq!(prescalar.device().trace(), &before);
}

#[test]
fn legal_divisors_commit_their_select_code() {
    for (factor, code) in LEGAL {
        for initial in [0x00u8, 0x08, 0x80, 0xFF] {
            let mut prescalar = Prescalar::new(Mcu::new(initial, ENABLED));
            assert_eq!(prescalar.enable_clock(factor), Ok(()));
            let word = prescalar.device().register();
            assert_eq!(word & 0x0F, code);
            assert_eq!(word & 0x80, 0);
            assert_eq!(word & 0x70, 0);
            assert_eq!(word, code);
            assert_eq!(ClockDivisor::from_select_code(word).map(|d| d.factor()), Some(factor));
        }
    }
}

#[test]
fn interrupt_flag_is_the_same_after_every_call() {
    for state in [ENABLED, MASKED] {
        for requested in [1u32, 3, 8, 100, 256, 1000] {
            let mut prescalar = Prescalar::new(Mcu::new(0x00, state));
            let _ = prescalar.enable_clock(requested);
            assert_eq!(prescalar.device().interrupts_enabled(), state.enabled);
        }
    }
}

#[test]
fn a_write_is_recorded_step_by_step() {
    let mut prescalar = Prescalar::new(Mcu::new(0x05, ENABLED));
    assert_eq!(prescalar.enable_clock(32), Ok(()));
    assert_eq!(
        prescalar.device().trace(),
        &vec![
            Record::Masked,
            Record::Write(0x80),
            Record::Delay,
            Record::Write(0x05),
            Record::Restored(ENABLED),
        ]
    );
}

#[test]
fn a_write_started_with_interrupts_masked_leaves_them_masked() {
    let mut prescalar = Prescalar::new(Mcu::new(0x00, MASKED));
    assert_eq!(prescalar.enable_clock(2), Ok(()));
    assert_eq!(
        prescalar.device().trace(),
        &vec![
            Record::Masked,
            Record::Write(0x80),
            Record::Delay,
            Record::Write(0x01),
            Record::Restored(MASKED),
        ]
    );
    assert!(!prescalar.device().interrupts_enabled());
}

#[test]
fn one_delay_separates_the_two_writes_of_each_call() {
    let mut prescalar = Prescalar::new(Mcu::new(0x00, ENABLED));
    assert_eq!(prescalar.enable_clock(4), Ok(()));
    assert_eq!(prescalar.enable_clock(128), Ok(()));
    let trace = prescalar.device().trace();
    let delays = trace.iter().filter(|r| matches!(r, Record::Delay)).count();
    assert_eq!(delays, 2);
    for (i, record) in trace.iter().enumerate() {
        if *record == Record::Write(0x80) {
            assert_eq!(trace[i + 1], Record::Delay);
            assert!(matches!(trace[i + 2], Record::Write(word) if word & 0x80 == 0));
        }
    }
}

#[test]
fn a_request_held_back_before_the_call_is_served_after_the_restore() {
    let mut device = Mcu::new(0x00, ENABLED);
    let prior = device.disable_interrupts();
    device.raise_interrupt();
    assert!(device.interrupt_pending());
    let mut prescalar = Prescalar::new(device);
    assert_eq!(prescalar.enable_clock(8), Ok(()));
    // The caller had masked interrupts itself, so the request is still held back.
    assert!(prescalar.device().interrupt_pending());
    assert!(!prescalar.device().interrupts_enabled());
    assert_eq!(prior, ENABLED);
    assert!(prescalar.device().trace().iter().all(|r| !matches!(r, Record::Delivered(_))));
}
