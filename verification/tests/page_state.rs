use snobol4_runner::demos::demos;
use snobol4_runner::runner::{BatchOutcome, StopReason};
use snobol4_runner::ui::{key_down, key_from_name, App, Effect, Key, Msg, Status, BATCH_SIZE, DEFAULT_MAX_INSTRS};

fn page() -> App {
    App::create(vec![0x01, 0x02])
}

fn run_batch_of(effects: &[Effect]) -> (Option<u8>, u64) {
    match effects {
        [Effect::RunBatch { rx_byte, batch }] => (*rx_byte, *batch),
        other => panic!("expected one RunBatch, got {:?}", other),
    }
}

#[test]
fn page_starts_on_hello_idle() {
    let app = page();
    assert_eq!(app.selected, 5);
    assert_eq!(app.source, demos()[5].source);
    assert_eq!(app.data, "");
    assert!(matches!(app.status, Status::Idle));
    assert_eq!(app.status.text("0"), "idle");
    assert!(!app.running);
    assert!(app.session.is_none());
    assert_eq!(app.max_instrs, DEFAULT_MAX_INSTRS);
    assert_eq!(app.status_class(), "status");
    assert!(!app.shows_stdin());
}

#[test]
fn selecting_input_demo_prefills_data() {
    let mut app = page();
    let u = app.update(Msg::SelectDemo(7));
    assert!(u.rerender);
    assert!(matches!(
        u.effects.as_slice(),
        [Effect::ClearOutput, Effect::Discard, Effect::ResetClock]
    ));
    assert_eq!(app.selected, 7);
    assert_eq!(app.data, "Hello\nWorld\nGoodbye\n");
    assert_eq!(app.source, demos()[7].source);
}

#[test]
fn selecting_out_of_range_keeps_demo() {
    let mut app = page();
    app.update(Msg::SourceChanged("edited".to_string()));
    let u = app.update(Msg::SelectDemo(99));
    assert!(u.rerender);
    assert!(u.effects.is_empty());
    assert_eq!(app.selected, 5);
    assert_eq!(app.source, "edited");
}

#[test]
fn editing_does_not_redraw() {
    let mut app = page();
    let u = app.update(Msg::SourceChanged("X".to_string()));
    assert!(!u.rerender);
    let u = app.update(Msg::DataChanged("D".to_string()));
    assert!(!u.rerender);
    assert_eq!(app.source, "X");
    assert_eq!(app.data, "D");
}

#[test]
fn run_boots_the_emulator_and_schedules_a_tick() {
    let mut app = page();
    app.update(Msg::SourceChanged("AB".to_string()));
    let u = app.update(Msg::Run);
    assert!(u.rerender);
    match u.effects.as_slice() {
        [Effect::Boot(writes), Effect::ClearOutput, Effect::StartClock, Effect::ScheduleTick] => {
            assert_eq!(writes, &vec![(0u32, 1u8), (1, 2), (0x080000, b'A'), (0x080001, b'B'), (0x080002, 0)]);
        }
        other => panic!("unexpected {:?}", other),
    }
    assert!(app.running);
    assert!(matches!(app.status, Status::Starting));
    assert_eq!(app.status.text("0"), "running…");
    assert!(app.shows_stdin());
}

#[test]
fn ticks_run_batches_until_halt() {
    let mut app = page();
    app.update(Msg::Run);
    let u = app.update(Msg::Tick);
    assert!(u.rerender);
    assert_eq!(run_batch_of(&u.effects), (None, BATCH_SIZE));
    let u = app.batch_done(BatchOutcome { instructions_run: BATCH_SIZE, reason: StopReason::CycleLimit, pc: 0 });
    assert!(matches!(
        u.effects.as_slice(),
        [Effect::ShowSessionOutput, Effect::MeasureElapsed, Effect::ScheduleTick]
    ));
    assert_eq!(app.status.text("12"), "running… 200000 instrs, 12 ms");
    app.update(Msg::Tick);
    let u = app.batch_done(BatchOutcome { instructions_run: 1234, reason: StopReason::Halted, pc: 0 });
    assert!(matches!(u.effects.as_slice(), [Effect::MeasureElapsed, Effect::ShowSessionOutput]));
    assert!(!app.running);
    assert!(!app.error);
    assert_eq!(app.status.text("35"), "done (201234 instrs, 35 ms)");
    let u = app.update(Msg::Tick);
    assert!(!u.rerender);
    assert!(u.effects.is_empty());
}

#[test]
fn emulator_fault_is_an_error() {
    let mut app = page();
    app.update(Msg::Run);
    app.update(Msg::Tick);
    app.batch_done(BatchOutcome { instructions_run: 10, reason: StopReason::InvalidInstruction(0xFF), pc: 0x42 });
    assert!(!app.running);
    assert!(app.error);
    assert_eq!(app.status_class(), "status status-error");
    assert_eq!(app.status.text("1"), "invalid instruction 0xFF at PC=0x000042 (10 instrs, 1 ms)");
}

#[test]
fn budget_limits_batches_and_ends_the_run() {
    let mut app = page();
    app.update(Msg::DataChanged("data".to_string()));
    app.update(Msg::Run);
    let full_batches = DEFAULT_MAX_INSTRS / BATCH_SIZE;
    for _ in 0..full_batches - 1 {
        let u = app.update(Msg::Tick);
        assert_eq!(run_batch_of(&u.effects), (None, BATCH_SIZE));
        app.batch_done(BatchOutcome { instructions_run: BATCH_SIZE, reason: StopReason::CycleLimit, pc: 0 });
    }
    let u = app.update(Msg::Tick);
    assert_eq!(run_batch_of(&u.effects), (None, BATCH_SIZE));
    app.batch_done(BatchOutcome { instructions_run: BATCH_SIZE - 50, reason: StopReason::CycleLimit, pc: 0 });
    let u = app.update(Msg::Tick);
    assert_eq!(run_batch_of(&u.effects), (None, 50));
    app.batch_done(BatchOutcome { instructions_run: 50, reason: StopReason::CycleLimit, pc: 0 });
    assert_eq!(app.session.as_ref().unwrap().instructions, DEFAULT_MAX_INSTRS);
    let u = app.update(Msg::Tick);
    assert!(u.rerender);
    assert!(matches!(u.effects.as_slice(), [Effect::MeasureElapsed, Effect::ShowSessionOutput]));
    assert!(!app.running);
    assert!(app.error);
    assert!(app.budget_exhausted);
    assert_eq!(app.status.text("9"), "halted (budget) — 200000000 instrs, 9 ms");
    let u = app.update(Msg::IncreaseBudget);
    assert!(matches!(u.effects.as_slice(), [Effect::Boot(_), Effect::ClearOutput, Effect::StartClock, Effect::ScheduleTick]));
    assert_eq!(app.max_instrs, 4 * DEFAULT_MAX_INSTRS);
    assert!(app.running);
    assert!(!app.error);
    assert!(!app.budget_exhausted);
    assert_eq!(app.session.as_ref().unwrap().instructions, 0);
}

#[test]
fn increase_budget_saturates() {
    let mut app = page();
    let mut expected = DEFAULT_MAX_INSTRS;
    for _ in 0..20 {
        app.update(Msg::IncreaseBudget);
        expected = expected.checked_mul(4).unwrap_or(u64::MAX);
        assert_eq!(app.max_instrs, expected);
    }
    assert_eq!(app.max_instrs, u64::MAX);
}

#[test]
fn run_resets_budget() {
    let mut app = page();
    app.update(Msg::IncreaseBudget);
    assert_eq!(app.max_instrs, 4 * DEFAULT_MAX_INSTRS);
    app.update(Msg::Run);
    assert_eq!(app.max_instrs, DEFAULT_MAX_INSTRS);
}

#[test]
fn interactive_run_ignores_budget_and_feeds_typed_lines() {
    let mut app = page();
    app.update(Msg::Run);
    let u = app.update(Msg::StdinSubmit("hi".to_string()));
    assert!(!u.rerender);
    assert!(matches!(u.effects.as_slice(), [Effect::ClearStdin]));
    let mut seen = Vec::new();
    for _ in 0..4 {
        let u = app.update(Msg::Tick);
        let (rx, batch) = run_batch_of(&u.effects);
        assert_eq!(batch, BATCH_SIZE);
        seen.push(rx);
        app.batch_done(BatchOutcome { instructions_run: 5, reason: StopReason::CycleLimit, pc: 0 });
    }
    assert_eq!(seen, vec![Some(b'h'), Some(b'i'), Some(b'\n'), None]);
    assert!(app.running);
}

#[test]
fn stdin_ignored_for_batch_runs() {
    let mut app = page();
    app.update(Msg::DataChanged("d".to_string()));
    app.update(Msg::Run);
    let u = app.update(Msg::StdinSubmit("hi".to_string()));
    assert!(u.effects.is_empty());
    assert!(app.session.as_ref().unwrap().rx_queue.is_empty());
    assert!(!app.shows_stdin());
}

#[test]
fn stop_ends_a_run_and_is_harmless_otherwise() {
    let mut app = page();
    let u = app.update(Msg::Stop);
    assert!(u.rerender);
    assert!(u.effects.is_empty());
    app.update(Msg::Run);
    app.update(Msg::Tick);
    app.batch_done(BatchOutcome { instructions_run: 1500, reason: StopReason::CycleLimit, pc: 0 });
    let u = app.update(Msg::Stop);
    assert!(matches!(u.effects.as_slice(), [Effect::MeasureElapsed, Effect::ShowSessionOutput]));
    assert!(!app.running);
    assert!(!app.error);
    assert_eq!(app.status.text("3"), "stopped (1500 instrs, 3 ms)");
}

#[test]
fn reset_discards_edits_and_run() {
    let mut app = page();
    app.update(Msg::SelectDemo(0));
    app.update(Msg::SourceChanged("junk".to_string()));
    app.update(Msg::IncreaseBudget);
    assert_eq!(app.max_instrs, 4 * DEFAULT_MAX_INSTRS);
    let u = app.update(Msg::Reset);
    assert!(matches!(
        u.effects.as_slice(),
        [Effect::Discard, Effect::ClearOutput, Effect::Discard, Effect::ResetClock]
    ));
    assert_eq!(app.selected, 0);
    assert_eq!(app.source, demos()[0].source);
    assert!(!app.running);
    assert!(app.session.is_none());
    assert_eq!(app.max_instrs, DEFAULT_MAX_INSTRS);
}

#[test]
fn clear_resets_status_only_when_idle() {
    let mut app = page();
    app.update(Msg::Run);
    app.update(Msg::Stop);
    let u = app.update(Msg::Clear);
    assert!(matches!(u.effects.as_slice(), [Effect::ClearOutput]));
    assert!(matches!(app.status, Status::Idle));
    app.update(Msg::Run);
    app.update(Msg::Clear);
    assert!(matches!(app.status, Status::Starting));
}

#[test]
fn keyboard_shortcuts() {
    assert!(matches!(
        key_down(Key::Enter, true, false, false).as_slice(),
        [Effect::PreventDefault, Effect::Send(Msg::Run)]
    ));
    assert!(matches!(
        key_down(Key::Enter, false, true, true).as_slice(),
        [Effect::PreventDefault, Effect::Send(Msg::Run)]
    ));
    assert!(key_down(Key::Enter, false, false, false).is_empty());
    assert!(matches!(
        key_down(Key::Escape, false, false, true).as_slice(),
        [Effect::PreventDefault, Effect::Send(Msg::Stop)]
    ));
    assert!(key_down(Key::Escape, false, false, false).is_empty());
    assert!(key_down(Key::Other, true, true, true).is_empty());
    let mut app = page();
    app.update(Msg::Run);
    let u = app.update(Msg::KeyDown { key: Key::Escape, ctrl: false, meta: false });
    assert!(!u.rerender);
    assert!(matches!(u.effects.as_slice(), [Effect::PreventDefault, Effect::Send(Msg::Stop)]));
    assert!(app.running);
}

#[test]
fn status_texts() {
    assert_eq!(Status::Stopped(5).text("1"), "stopped (5 instrs, 1 ms)");
    assert_eq!(Status::Failed("stalled".to_string(), 0).text("1"), "stalled (0 instrs, 1 ms)");
    assert_eq!(Status::Done(0).text("0"), "done (0 instrs, 0 ms)");
    assert_eq!(Status::OutOfBudget(u64::MAX).text("7"), "halted (budget) — 18446744073709551615 instrs, 7 ms");
}

#[test]
fn key_names_map_to_keys() {
    assert_eq!(key_from_name("Enter"), Key::Enter);
    assert_eq!(key_from_name("Escape"), Key::Escape);
    assert_eq!(key_from_name("a"), Key::Other);
    assert_eq!(key_from_name("enter"), Key::Other);
    assert_eq!(key_from_name(""), Key::Other);
}

#[test]
fn small_programs_can_start() {
    let mut app = page();
    assert!(app.can_start());
    app.update(Msg::SourceChanged("x".repeat(1000)));
    assert!(app.can_start());
}

#[test]
fn status_line_says_running_exactly_while_running() {
    let mut app = page();
    app.update(Msg::Run);
    assert!(app.status.text("0").starts_with("running…"));
    app.update(Msg::Tick);
    app.batch_done(BatchOutcome { instructions_run: 3, reason: StopReason::CycleLimit, pc: 0 });
    assert!(app.running);
    assert!(app.status.text("0").starts_with("running…"));
    app.update(Msg::Stop);
    assert!(!app.status.text("0").starts_with("running…"));
}
