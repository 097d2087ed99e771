use snobol4_runner::runner::{
    fits_in_memory, BatchOutcome, Session, StopReason, TickPlan, TickResult, DATA_ADDR, ENTRY_PC, SRC_ADDR,
};

fn outcome(instructions_run: u64, reason: StopReason, pc: u32) -> BatchOutcome {
    BatchOutcome { instructions_run, reason, pc }
}

#[test]
fn boot_image_places_interpreter_source_and_data() {
    let interpreter = [0xAAu8, 0xBB, 0xCC];
    let (session, writes) = Session::new(&interpreter, "AB", "xy");
    let expected: Vec<(u32, u8)> = vec![
        (0, 0xAA),
        (1, 0xBB),
        (2, 0xCC),
        (0x080000, b'A'),
        (0x080001, b'B'),
        (0x080002, 0),
        (0x090000, b'x'),
        (0x090001, b'y'),
        (0x090002, 0),
    ];
    assert_eq!(writes, expected);
    assert!(!session.is_interactive());
    assert_eq!(session.instructions, 0);
    assert!(!session.done);
    assert!(!session.halted);
    assert_eq!(session.stop_reason, "");
    assert_eq!(SRC_ADDR, 0x080000);
    assert_eq!(DATA_ADDR, 0x090000);
    assert_eq!(ENTRY_PC, 0);
}

#[test]
fn empty_data_means_interactive_and_no_data_segment() {
    let (session, writes) = Session::new(&[1u8], "", "");
    assert_eq!(writes, vec![(0u32, 1u8), (0x080000, 0)]);
    assert!(session.is_interactive());
}

#[test]
fn source_is_loaded_as_utf8_bytes() {
    let (_, writes) = Session::new(&[], "é", "");
    assert_eq!(writes, vec![(0x080000u32, 0xC3u8), (0x080001, 0xA9), (0x080002, 0)]);
}

#[test]
fn tick_hands_over_one_queued_byte_per_tick_in_order() {
    let (mut s, _) = Session::new(&[], "x", "");
    s.send_input_byte(b'h');
    s.send_input_byte(b'i');
    match s.tick(100) {
        TickPlan::Run { rx_byte, batch } => {
            assert_eq!(rx_byte, Some(b'h'));
            assert_eq!(batch, 100);
        }
        other => panic!("unexpected {:?}", other),
    }
    let r = s.complete_batch(outcome(100, StopReason::CycleLimit, 5));
    assert_eq!(r, TickResult { instructions_run: 100, done: false });
    match s.tick(100) {
        TickPlan::Run { rx_byte, .. } => assert_eq!(rx_byte, Some(b'i')),
        other => panic!("unexpected {:?}", other),
    }
    s.complete_batch(outcome(100, StopReason::CycleLimit, 5));
    match s.tick(100) {
        TickPlan::Run { rx_byte, .. } => assert_eq!(rx_byte, None),
        other => panic!("unexpected {:?}", other),
    }
    let r = s.complete_batch(outcome(7, StopReason::CycleLimit, 5));
    assert_eq!(r, TickResult { instructions_run: 7, done: false });
    assert_eq!(s.instructions, 207);
    assert!(!s.done);
}

#[test]
fn halt_ends_the_run_cleanly_and_later_ticks_do_nothing() {
    let (mut s, _) = Session::new(&[], "x", "d");
    assert!(matches!(s.tick(50), TickPlan::Run { rx_byte: None, batch: 50 }));
    let r = s.complete_batch(outcome(42, StopReason::Halted, 9));
    assert_eq!(r, TickResult { instructions_run: 42, done: true });
    assert!(s.done);
    assert!(s.halted);
    assert_eq!(s.stop_reason, "halted");
    assert_eq!(s.instructions, 42);
    s.send_input_byte(1);
    assert_eq!(s.tick(50), TickPlan::Idle(TickResult { instructions_run: 0, done: true }));
    assert_eq!(s.tick(50), TickPlan::Idle(TickResult { instructions_run: 0, done: true }));
    assert_eq!(s.instructions, 42);
}

fn stop_with(reason: StopReason, pc: u32) -> Session {
    let (mut s, _) = Session::new(&[], "x", "d");
    s.tick(10);
    let r = s.complete_batch(outcome(3, reason, pc));
    assert!(r.done);
    assert!(!s.halted);
    s
}

#[test]
fn invalid_instruction_message_has_byte_and_pc_in_hex() {
    let s = stop_with(StopReason::InvalidInstruction(0x3F), 0x12AB);
    assert_eq!(s.stop_reason, "invalid instruction 0x3F at PC=0x0012AB");
    let s = stop_with(StopReason::InvalidInstruction(0x05), 0xFEDCBA);
    assert_eq!(s.stop_reason, "invalid instruction 0x05 at PC=0xFEDCBA");
}

#[test]
fn breakpoint_paused_and_stack_messages() {
    assert_eq!(stop_with(StopReason::Breakpoint(0x100), 0).stop_reason, "breakpoint at 0x000100");
    assert_eq!(stop_with(StopReason::Paused, 0).stop_reason, "paused");
    assert_eq!(
        stop_with(StopReason::StackOverflow(0xFEEC00), 0).stop_reason,
        "stack overflow at SP=0xFEEC00"
    );
    assert_eq!(
        stop_with(StopReason::StackUnderflow(0x1234567), 0).stop_reason,
        "stack underflow at SP=0x1234567"
    );
}

#[test]
fn cycle_limit_without_progress_is_a_stall() {
    let (mut s, _) = Session::new(&[], "x", "d");
    s.tick(10);
    let r = s.complete_batch(outcome(0, StopReason::CycleLimit, 0));
    assert_eq!(r, TickResult { instructions_run: 0, done: true });
    assert!(s.done);
    assert!(!s.halted);
    assert_eq!(s.stop_reason, "stalled");
}

#[test]
fn typed_bytes_arrive_in_order_over_many_ticks() {
    let (mut s, _) = Session::new(&[], "x", "");
    let typed = b"hello, world\n";
    for &b in typed.iter() {
        s.send_input_byte(b);
    }
    let mut got = Vec::new();
    for _ in 0..typed.len() {
        match s.tick(10) {
            TickPlan::Run { rx_byte: Some(b), .. } => got.push(b),
            other => panic!("unexpected {:?}", other),
        }
        s.complete_batch(outcome(10, StopReason::CycleLimit, 0));
    }
    assert_eq!(got, typed.to_vec());
    assert!(s.rx_queue.is_empty());
    assert!(s.is_interactive());
}

#[test]
fn interactive_flag_is_fixed_for_the_session() {
    let (mut s, _) = Session::new(&[], "x", "x\n");
    assert!(!s.is_interactive());
    s.send_input_byte(1);
    s.tick(5);
    s.complete_batch(outcome(5, StopReason::Halted, 0));
    s.tick(5);
    assert!(!s.is_interactive());
}

#[test]
fn only_a_clean_halt_reads_halted() {
    for reason in [StopReason::Paused, StopReason::Breakpoint(0), StopReason::CycleLimit] {
        let (mut s, _) = Session::new(&[], "x", "d");
        s.tick(5);
        s.complete_batch(outcome(0, reason, 0));
        assert!(s.done);
        assert!(!s.halted);
        assert_ne!(s.stop_reason, "halted");
    }
}

#[test]
fn image_bound_check() {
    assert!(fits_in_memory(&[0u8; 16], "src", "data"));
}
