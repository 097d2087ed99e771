//! The page's state machine: which demo is loaded, the text being edited, the
//! run in progress and its instruction budget, and the status line.
//!
//! `App::update` takes a message and returns the effects that the page shell
//! carries out (emptying or refreshing the output panel, reading the clock,
//! booting the emulator, running a batch, scheduling the next tick, ...).
//! A tick that runs a batch is completed by `App::batch_done` with what the
//! emulator reported.
use vstd::prelude::*;
use vstd::string::*;
use vstd::utf8::encode_utf8;
use crate::demos::{lemma_demo_sources_by_name, HELLO_SOURCE, same_text, INPUT_DATA, default_demo_index, demo_data, demo_names, demo_sources, demos, is_demo};
use crate::runner::{
    boot_image,
    completed,
    fits_in_memory,
    image_fits,
    next_input,
    BatchOutcome,
    Session,
    StopReason,
    TickPlan,
    TickResult,
};
use crate::text::{decimal, lemma_decimal_renders, lemma_shows_number, push_decimal, shows_number};

verus! {

/// Instruction budget of a run started with Run.
pub const DEFAULT_MAX_INSTRS: u64 = 200_000_000;

/// Instructions run per tick, at most.
pub const BATCH_SIZE: u64 = 200_000;

/// The keys the page reacts to.
#[derive(PartialEq, Eq, Structural, Clone, Copy, Debug)]
pub enum Key {
    Enter,
    Escape,
    Other,
}

/// What the page reacts to.
#[derive(Clone, Debug)]
pub enum Msg {
    /// A demo was picked from the menu (by position).
    SelectDemo(usize),
    /// The source text was edited.
    SourceChanged(String),
    /// The input data text was edited.
    DataChanged(String),
    /// A line was submitted in the stdin field.
    StdinSubmit(String),
    Run,
    Tick,
    Stop,
    Reset,
    Clear,
    IncreaseBudget,
    /// A key went down, with the state of the Ctrl and Meta modifiers.
    KeyDown { key: Key, ctrl: bool, meta: bool },
}

/// The status line.
#[derive(Clone, Debug)]
pub enum Status {
    Idle,
    /// A run was started and has not reported yet.
    Starting,
    /// A run is going on, this many instructions in.
    Running(u64),
    /// The program halted cleanly after this many instructions.
    Done(u64),
    /// The user stopped the run after this many instructions.
    Stopped(u64),
    /// The run used up its instruction budget.
    OutOfBudget(u64),
    /// The emulator stopped the run for this reason, after this many
    /// instructions.
    Failed(String, u64),
}

/// What the page shell does on the state machine's behalf.
#[derive(Clone, Debug)]
pub enum Effect {
    /// Empty the output panel.
    ClearOutput,
    /// Show the emulator's UART output so far in the output panel.
    ShowSessionOutput,
    /// Note the current time as the start of the run; the elapsed time is 0.
    StartClock,
    /// Set the elapsed time to 0.
    ResetClock,
    /// Set the elapsed time to the time since the start of the run.
    MeasureElapsed,
    /// Discard the emulator of the current run.
    Discard,
    /// Create a fresh emulator, apply these byte writes to its memory, set
    /// its program counter to `ENTRY_PC`, switch off its UART transmit delay
    /// and its stack bounds check, and resume it.
    Boot(Vec<(u32, u8)>),
    /// Hand `rx_byte` (if any) to the UART receive register, run up to
    /// `batch` instructions, and report with `App::batch_done`.
    RunBatch { rx_byte: Option<u8>, batch: u64 },
    /// Send `Msg::Tick` again as soon as possible.
    ScheduleTick,
    /// Empty the stdin field.
    ClearStdin,
    /// Stop the browser's default handling of the current key event.
    PreventDefault,
    /// Send this message.
    Send(Msg),
}

/// The answer to a message: whether the page must be drawn again, and what
/// the shell must do, in order.
pub struct Update {
    pub rerender: bool,
    pub effects: Vec<Effect>,
}

/// The text of the status line. `elapsed_ms` is the elapsed time as the shell
/// renders it.
pub open spec fn status_line(status: Status, elapsed_ms: Seq<char>) -> Seq<char> {
    match status {
        Status::Idle => "idle"@,
        Status::Starting => "running…"@,
        Status::Running(n) => "running… "@ + decimal(n as nat) + " instrs, "@ + elapsed_ms
            + " ms"@,
        Status::Done(n) => "done ("@ + decimal(n as nat) + " instrs, "@ + elapsed_ms + " ms)"@,
        Status::Stopped(n) => "stopped ("@ + decimal(n as nat) + " instrs, "@ + elapsed_ms
            + " ms)"@,
        Status::OutOfBudget(n) => "halted (budget) — "@ + decimal(n as nat) + " instrs, "@
            + elapsed_ms + " ms"@,
        Status::Failed(reason, n) => reason@ + " ("@ + decimal(n as nat) + " instrs, "@ + elapsed_ms
            + " ms)"@,
    }
}

impl Status {
    /// Renders the status line.
    pub fn text(&self, elapsed_ms: &str) -> (res: String)
        ensures
            res@ == status_line(*self, elapsed_ms@),
    {
        match self {
            Status::Idle => String::from_str("idle"),
            Status::Starting => String::from_str("running…"),
            Status::Running(n) => {
                let mut s = String::from_str("running… ");
                push_decimal(&mut s, *n);
                s.append(" instrs, ");
                s.append(elapsed_ms);
                s.append(" ms");
                s
            },
            Status::Done(n) => {
                let mut s = String::from_str("done (");
                push_decimal(&mut s, *n);
                s.append(" instrs, ");
                s.append(elapsed_ms);
                s.append(" ms)");
                s
            },
            Status::Stopped(n) => {
                let mut s = String::from_str("stopped (");
                push_decimal(&mut s, *n);
                s.append(" instrs, ");
                s.append(elapsed_ms);
                s.append(" ms)");
                s
            },
            Status::OutOfBudget(n) => {
                let mut s = String::from_str("halted (budget) — ");
                push_decimal(&mut s, *n);
                s.append(" instrs, ");
                s.append(elapsed_ms);
                s.append(" ms");
                s
            },
            Status::Failed(reason, n) => {
                let mut s = String::from_str(reason.as_str());
                s.append(" (");
                push_decimal(&mut s, *n);
                s.append(" instrs, ");
                s.append(elapsed_ms);
                s.append(" ms)");
                s
            },
        }
    }
}

/// What the status line says, read back: "idle" or "running…" before any
/// report; otherwise the state's words, the instruction count in decimal,
/// and, for a run in progress and for every ended run, the elapsed time.
pub open spec fn line_says(t: Seq<char>, status: Status, ms: Seq<char>) -> bool {
    match status {
        Status::Idle => t == "idle"@,
        Status::Starting => t == "running…"@,
        Status::Running(n) => shows_number(t, "running… "@, n as nat, 10, 0, " instrs, "@ + ms + " ms"@),
        Status::Done(n) => shows_number(t, "done ("@, n as nat, 10, 0, " instrs, "@ + ms + " ms)"@),
        Status::Stopped(n) => shows_number(t, "stopped ("@, n as nat, 10, 0, " instrs, "@ + ms + " ms)"@),
        Status::OutOfBudget(n) => shows_number(
            t,
            "halted (budget) — "@,
            n as nat,
            10,
            0,
            " instrs, "@ + ms + " ms"@,
        ),
        Status::Failed(reason, n) => shows_number(
            t,
            reason@ + " ("@,
            n as nat,
            10,
            0,
            " instrs, "@ + ms + " ms)"@,
        ),
    }
}

/// Every status line says its state, the count in decimal and, for a run in
/// progress or ended, the elapsed time.
pub proof fn lemma_status_line_says(status: Status, ms: Seq<char>)
    ensures
        line_says(status_line(status, ms), status, ms),
{
    let t = status_line(status, ms);
    match status {
        Status::Running(n) => {
            lemma_decimal_renders(n as nat);
            lemma_shows_number("running… "@, decimal(n as nat), " instrs, "@ + ms + " ms"@, n as nat, 10, 0);
            assert(t =~= "running… "@ + decimal(n as nat) + (" instrs, "@ + ms + " ms"@));
        },
        Status::Done(n) => {
            lemma_decimal_renders(n as nat);
            lemma_shows_number("done ("@, decimal(n as nat), " instrs, "@ + ms + " ms)"@, n as nat, 10, 0);
            assert(t =~= "done ("@ + decimal(n as nat) + (" instrs, "@ + ms + " ms)"@));
        },
        Status::Stopped(n) => {
            lemma_decimal_renders(n as nat);
            lemma_shows_number("stopped ("@, decimal(n as nat), " instrs, "@ + ms + " ms)"@, n as nat, 10, 0);
            assert(t =~= "stopped ("@ + decimal(n as nat) + (" instrs, "@ + ms + " ms)"@));
        },
        Status::OutOfBudget(n) => {
            lemma_decimal_renders(n as nat);
            lemma_shows_number("halted (budget) — "@, decimal(n as nat), " instrs, "@ + ms + " ms"@, n as nat, 10, 0);
            assert(t =~= "halted (budget) — "@ + decimal(n as nat) + (" instrs, "@ + ms + " ms"@));
        },
        Status::Failed(reason, n) => {
            lemma_decimal_renders(n as nat);
            lemma_shows_number(reason@ + " ("@, decimal(n as nat), " instrs, "@ + ms + " ms)"@, n as nat, 10, 0);
            assert(t =~= (reason@ + " ("@) + decimal(n as nat) + (" instrs, "@ + ms + " ms)"@));
        },
        _ => {},
    }
}

/// A key press never changes the page's state: Ctrl/Cmd+Enter asks for a
/// run, Escape asks to stop only while a run is in progress, and any other
/// key asks for nothing.
pub proof fn lemma_key_press(a: App, key: Key, ctrl: bool, meta: bool, b: App, u: Update)
    requires
        step(a, Msg::KeyDown { key, ctrl, meta }, b, u),
    ensures
        b == a,
        !u.rerender,
        key == Key::Enter && (ctrl || meta) ==> u.effects@.contains(Effect::Send(Msg::Run)),
        key == Key::Escape && a.running ==> u.effects@.contains(Effect::Send(Msg::Stop)),
        key == Key::Escape && !a.running ==> u.effects@.len() == 0,
        key == Key::Other ==> u.effects@.len() == 0,
        key == Key::Enter && !ctrl && !meta ==> u.effects@.len() == 0,
{
    if key == Key::Enter && (ctrl || meta) {
        assert(u.effects@[1] == Effect::Send(Msg::Run));
    }
    if key == Key::Escape && a.running {
        assert(u.effects@[1] == Effect::Send(Msg::Stop));
    }
}

/// The key a DOM key name stands for.
pub open spec fn key_named(name: Seq<char>) -> Key {
    if name == "Enter"@ {
        Key::Enter
    } else if name == "Escape"@ {
        Key::Escape
    } else {
        Key::Other
    }
}

/// Reads a DOM key name (`KeyboardEvent.key`).
pub fn key_from_name(name: &str) -> (key: Key)
    ensures
        key == key_named(name@),
{
    if same_text(name, "Enter") {
        Key::Enter
    } else if same_text(name, "Escape") {
        Key::Escape
    } else {
        Key::Other
    }
}

/// The effects of a key press: Ctrl/Cmd+Enter runs, Escape stops a run.
pub open spec fn key_effects(key: Key, ctrl: bool, meta: bool, running: bool) -> Seq<Effect> {
    if key == Key::Enter && (ctrl || meta) {
        seq![Effect::PreventDefault, Effect::Send(Msg::Run)]
    } else if key == Key::Escape && running {
        seq![Effect::PreventDefault, Effect::Send(Msg::Stop)]
    } else {
        seq![]
    }
}

/// Decides what a key press does.
pub fn key_down(key: Key, ctrl: bool, meta: bool, running: bool) -> (effects: Vec<Effect>)
    ensures
        effects@ == key_effects(key, ctrl, meta, running),
{
    let mut effects: Vec<Effect> = Vec::new();
    if key == Key::Enter && (ctrl || meta) {
        effects.push(Effect::PreventDefault);
        effects.push(Effect::Send(Msg::Run));
    } else if key == Key::Escape && running {
        effects.push(Effect::PreventDefault);
        effects.push(Effect::Send(Msg::Stop));
    }
    assert(effects@ =~= key_effects(key, ctrl, meta, running));
    effects
}

/// The state of the page, apart from the emulator, the clock and the output
/// panel, which the shell holds.
pub struct App {
    /// The SNOBOL4 interpreter image that every run boots.
    pub interpreter: Vec<u8>,
    /// Position of the selected demo in the demo table.
    pub selected: usize,
    /// The source text being edited.
    pub source: String,
    /// The input data text being edited.
    pub data: String,
    pub status: Status,
    /// Whether the status line shows an error.
    pub error: bool,
    /// The current run, if any.
    pub session: Option<Session>,
    /// Whether ticks go on.
    pub running: bool,
    /// Instruction budget of the current run (ignored for interactive runs).
    pub max_instrs: u64,
    /// True when the last run stopped on its budget: the page then offers to
    /// raise it.
    pub budget_exhausted: bool,
    /// The batch asked of the emulator by the last tick, until
    /// `App::batch_done` reports on it.
    pub batch_in_flight: Option<u64>,
}

/// The budget after `IncreaseBudget`: four times as large, or the largest
/// `u64` when that does not fit.
pub open spec fn quadrupled(n: u64) -> u64 {
    if n * 4 > u64::MAX {
        u64::MAX
    } else {
        (n * 4) as u64
    }
}

/// The instructions a budgeted run may still execute.
pub open spec fn remaining_budget(max: u64, used: u64) -> u64 {
    if used >= max {
        0
    } else {
        (max - used) as u64
    }
}

/// The batch a tick asks for: a full batch for an interactive run, else
/// what is left of the budget, at most a full batch.
pub open spec fn batch_for(interactive: bool, max: u64, used: u64) -> u64 {
    if interactive {
        BATCH_SIZE
    } else if remaining_budget(max, used) < BATCH_SIZE {
        remaining_budget(max, used)
    } else {
        BATCH_SIZE
    }
}

/// Interactive runs ignore the budget: each tick asks for a full batch. A
/// budgeted run asks for at most a full batch and never for more than what
/// is left of its budget, and for nothing exactly when the budget is used
/// up.
pub proof fn lemma_batch_within_budget(interactive: bool, max: u64, used: u64)
    ensures
        interactive ==> batch_for(interactive, max, used) == BATCH_SIZE,
        batch_for(interactive, max, used) <= BATCH_SIZE,
        !interactive ==> (batch_for(interactive, max, used) == 0 <==> used >= max),
        !interactive && used < max ==> used + batch_for(interactive, max, used) <= max,
{
}

/// The data text that demo `idx` brings (empty when it has none).
pub open spec fn demo_data_text(idx: int) -> Seq<char> {
    match demo_data(idx) {
        Some(d) => d,
        None => Seq::empty(),
    }
}

/// Whether `a` has demo `idx` freshly loaded: its source and data, no run,
/// an idle status line.
pub open spec fn fresh_demo(a: App, idx: int) -> bool {
    &&& a.selected == idx
    &&& a.source@ == demo_sources()[idx]
    &&& a.data@ == demo_data_text(idx)
    &&& a.status is Idle
    &&& !a.error
    &&& a.session is None
    &&& !a.running
    &&& !a.budget_exhausted
    &&& a.batch_in_flight is None
}

/// The effects of loading a demo.
pub open spec fn load_effects() -> Seq<Effect> {
    seq![Effect::ClearOutput, Effect::Discard, Effect::ResetClock]
}

/// Whether `b` is `a` with a run of `a`'s source and data just started,
/// and `effects` what the shell must do for it.
pub open spec fn started(a: App, b: App, effects: Seq<Effect>) -> bool {
    &&& b.interpreter == a.interpreter
    &&& b.selected == a.selected
    &&& b.source == a.source
    &&& b.data == a.data
    &&& b.status is Starting
    &&& !b.error
    &&& b.running
    &&& !b.budget_exhausted
    &&& b.batch_in_flight is None
    &&& b.session matches Some(s) && {
        &&& s.instructions == 0
        &&& !s.done
        &&& !s.halted
        &&& s.stop_reason@ == Seq::<char>::empty()
        &&& s.interactive == (a.data@.len() == 0)
        &&& s.rx_queue@ == Seq::<u8>::empty()
    }
    &&& effects.len() == 4
    &&& effects[0] matches Effect::Boot(w) && w@ == boot_image(
        a.interpreter@,
        a.source@,
        a.data@,
    )
    &&& effects[1] is ClearOutput
    &&& effects[2] is StartClock
    &&& effects[3] is ScheduleTick
}

/// The effects of ending a run: the elapsed time is taken, and the output
/// panel shows the run's output.
pub open spec fn finish_effects(a: App) -> Seq<Effect> {
    if a.session is Some {
        seq![Effect::MeasureElapsed, Effect::ShowSessionOutput]
    } else {
        seq![Effect::MeasureElapsed]
    }
}

/// Whether `b` is `a` with its run ended with this status and error flag.
pub open spec fn finished(a: App, b: App, status: Status, error: bool) -> bool {
    b == App { running: false, status, error, batch_in_flight: None, ..a }
}

/// The status and error flag a run ends with when its session stops.
pub open spec fn end_status(s: Session) -> Status {
    if s.halted {
        Status::Done(s.instructions)
    } else {
        Status::Failed(s.stop_reason, s.instructions)
    }
}

/// Whether a message needs the current source and data to fit in the
/// emulator's address space (it starts a run).
pub open spec fn starts_run(msg: Msg) -> bool {
    msg is Run || msg is IncreaseBudget
}

/// What `update` does with `msg` in state `a`: the state `b` it leads to and
/// the answer `u`.
pub open spec fn step(a: App, msg: Msg, b: App, u: Update) -> bool {
    match msg {
        Msg::SelectDemo(idx) => {
            &&& u.rerender
            &&& if idx < demo_names().len() {
                &&& fresh_demo(b, idx as int)
                &&& b.interpreter == a.interpreter
                &&& b.max_instrs == DEFAULT_MAX_INSTRS
                &&& u.effects@ == load_effects()
            } else {
                &&& b == App { max_instrs: DEFAULT_MAX_INSTRS, ..a }
                &&& u.effects@ == Seq::<Effect>::empty()
            }
        },
        Msg::SourceChanged(text) => {
            &&& !u.rerender
            &&& b == App { source: text, ..a }
            &&& u.effects@ == Seq::<Effect>::empty()
        },
        Msg::DataChanged(text) => {
            &&& !u.rerender
            &&& b == App { data: text, ..a }
            &&& u.effects@ == Seq::<Effect>::empty()
        },
        Msg::StdinSubmit(line) => {
            let s = a.session.unwrap();
            &&& !u.rerender
            &&& if a.session is Some && s.interactive {
                &&& b.session matches Some(t) && t == Session {
                    rx_queue: t.rx_queue,
                    ..s
                } && t.rx_queue@ == s.rx_queue@ + encode_utf8(line@).push(10u8)
                &&& b == App { session: b.session, ..a }
                &&& u.effects@ == seq![Effect::ClearStdin]
            } else {
                &&& b == a
                &&& u.effects@ == Seq::<Effect>::empty()
            }
        },
        Msg::Run => {
            &&& u.rerender
            &&& b.max_instrs == DEFAULT_MAX_INSTRS
            &&& started(a, b, u.effects@)
        },
        Msg::IncreaseBudget => {
            &&& u.rerender
            &&& b.max_instrs == quadrupled(a.max_instrs)
            &&& started(a, b, u.effects@)
        },
        Msg::Stop => {
            &&& u.rerender
            &&& if a.running {
                &&& finished(a, b, Status::Stopped(a.session.unwrap().instructions), false)
                &&& u.effects@ == finish_effects(a)
            } else {
                &&& b == a
                &&& u.effects@ == Seq::<Effect>::empty()
            }
        },
        Msg::Reset => {
            &&& u.rerender
            &&& fresh_demo(b, a.selected as int)
            &&& b.interpreter == a.interpreter
            &&& b.max_instrs == DEFAULT_MAX_INSTRS
            &&& u.effects@ == seq![Effect::Discard] + load_effects()
        },
        Msg::Clear => {
            &&& u.rerender
            &&& u.effects@ == seq![Effect::ClearOutput]
            &&& if a.running {
                b == a
            } else {
                b == App { status: Status::Idle, error: false, budget_exhausted: false, ..a }
            }
        },
        Msg::Tick => tick_step(a, b, u),
        Msg::KeyDown { key, ctrl, meta } => {
            &&& !u.rerender
            &&& b == a
            &&& u.effects@ == key_effects(key, ctrl, meta, a.running)
        },
    }
}

/// What a tick does. A run with no budget left ends there; otherwise the
/// next batch is asked of the emulator.
pub open spec fn tick_step(a: App, b: App, u: Update) -> bool {
    if !a.running {
        &&& !u.rerender
        &&& b == a
        &&& u.effects@ == Seq::<Effect>::empty()
    } else {
        let s = a.session.unwrap();
        let batch = batch_for(s.interactive, a.max_instrs, s.instructions);
        &&& u.rerender
        &&& if batch == 0 {
            &&& b == App {
                running: false,
                status: Status::OutOfBudget(s.instructions),
                error: true,
                budget_exhausted: true,
                batch_in_flight: None,
                ..a
            }
            &&& u.effects@ == finish_effects(a)
        } else {
            &&& b.session matches Some(t) && t == Session { rx_queue: t.rx_queue, ..s }
                && t.rx_queue@ == crate::runner::after_next_input(s.rx_queue@)
            &&& b == App { session: b.session, batch_in_flight: Some(batch), ..a }
            &&& u.effects@ == seq![Effect::RunBatch { rx_byte: next_input(s.rx_queue@), batch }]
        }
    }
}

/// What completing a batch does: the run ends when its session stops,
/// otherwise the page shows the progress and schedules the next tick.
pub open spec fn batch_step(a: App, outcome: BatchOutcome, b: App, u: Update) -> bool {
    let s = a.session.unwrap();
    &&& u.rerender
    &&& b.session matches Some(t) && completed(s, outcome, t) && if t.done {
        &&& b == App {
            session: b.session,
            running: false,
            status: end_status(t),
            error: !t.halted,
            batch_in_flight: None,
            ..a
        }
        &&& u.effects@ == seq![Effect::MeasureElapsed, Effect::ShowSessionOutput]
    } else {
        &&& b == App {
            session: b.session,
            status: Status::Running(t.instructions),
            batch_in_flight: None,
            ..a
        }
        &&& u.effects@ == seq![
            Effect::ShowSessionOutput,
            Effect::MeasureElapsed,
            Effect::ScheduleTick,
        ]
    }
}

/// Reset reloads the demo that was selected, whatever was edited: the
/// selection stays, the source and data are that demo's own, the run is
/// discarded and the budget is back to the default.
pub proof fn lemma_reset_reloads_selected_demo(a: App, b: App, u: Update)
    requires
        a.wf(),
        step(a, Msg::Reset, b, u),
    ensures
        b.selected == a.selected,
        b.source@ == demo_sources()[a.selected as int],
        demo_names()[a.selected as int] == "input"@ ==> b.data@ == INPUT_DATA@,
        demo_names()[a.selected as int] != "input"@ ==> b.data@.len() == 0,
        b.session is None,
        !b.running,
        !b.error,
        !b.budget_exhausted,
        b.status is Idle,
        b.max_instrs == DEFAULT_MAX_INSTRS,
        b.interpreter == a.interpreter,
        u.rerender,
{
    lemma_demo_sources_by_name();
}

/// Picking a demo from the menu selects it and loads its own source and
/// data, discarding the run; a position past the menu changes neither the
/// selection nor the texts nor the run.
pub proof fn lemma_select_demo_loads_it(a: App, idx: usize, b: App, u: Update)
    requires
        a.wf(),
        step(a, Msg::SelectDemo(idx), b, u),
    ensures
        idx < demo_names().len() ==> {
            &&& b.selected == idx
            &&& b.source@ == demo_sources()[idx as int]
            &&& (demo_names()[idx as int] == "input"@ ==> b.data@ == INPUT_DATA@)
            &&& (demo_names()[idx as int] != "input"@ ==> b.data@.len() == 0)
            &&& b.session is None
            &&& !b.running
            &&& b.status is Idle
        },
        idx >= demo_names().len() ==> {
            &&& b.selected == a.selected
            &&& b.source == a.source
            &&& b.data == a.data
            &&& b.session == a.session
            &&& b.running == a.running
        },
        b.max_instrs == DEFAULT_MAX_INSTRS,
{
    lemma_demo_sources_by_name();
}

/// A line submitted to an interactive run is queued for the UART byte by
/// byte, followed by a newline, for every line, the empty one included, and
/// the stdin field is emptied; without an interactive run nothing changes.
pub proof fn lemma_submitted_line_is_queued(a: App, line: String, b: App, u: Update)
    requires
        a.wf(),
        step(a, Msg::StdinSubmit(line), b, u),
    ensures
        a.session is Some && a.session.unwrap().interactive ==> {
            &&& b.session is Some
            &&& b.session.unwrap().rx_queue@ == a.session.unwrap().rx_queue@ + encode_utf8(line@)
                + seq![10u8]
            &&& b.session.unwrap().instructions == a.session.unwrap().instructions
            &&& b.session.unwrap().done == a.session.unwrap().done
            &&& b.running == a.running
            &&& u.effects@ == seq![Effect::ClearStdin]
        },
        !(a.session is Some && a.session.unwrap().interactive) ==> b == a && u.effects@.len() == 0,
        !u.rerender,
{
    if a.session is Some && a.session.unwrap().interactive {
        assert(encode_utf8(line@).push(10u8) =~= encode_utf8(line@) + seq![10u8]);
        assert(a.session.unwrap().rx_queue@ + encode_utf8(line@).push(10u8)
            =~= a.session.unwrap().rx_queue@ + encode_utf8(line@) + seq![10u8]);
    }
}

/// Clear empties the output panel; with no run in progress it also puts the
/// status back to idle without error and withdraws the offer to raise the
/// budget; a run in progress is left as it is.
pub proof fn lemma_clear(a: App, b: App, u: Update)
    requires
        a.wf(),
        step(a, Msg::Clear, b, u),
    ensures
        u.effects@ == seq![Effect::ClearOutput],
        !a.running ==> b.status is Idle && !b.error && !b.budget_exhausted,
        a.running ==> b == a,
        b.running == a.running,
        b.session == a.session,
        b.selected == a.selected,
        b.source == a.source,
        b.data == a.data,
        b.max_instrs == a.max_instrs,
{
}

/// Stop ends a run in progress without error, recording how many
/// instructions it ran; without a run it changes nothing.
pub proof fn lemma_stop(a: App, b: App, u: Update)
    requires
        a.wf(),
        step(a, Msg::Stop, b, u),
    ensures
        a.running ==> !b.running && !b.error && b.status == Status::Stopped(
            a.session.unwrap().instructions,
        ) && b.session == a.session,
        !a.running ==> b == a,
{
}

/// Run and IncreaseBudget start a fresh run of the current source and data:
/// nothing executed yet, nothing queued, interactive exactly when there is no
/// data; Run with the default budget, IncreaseBudget with four times the
/// budget, or the largest `u64` when that does not fit.
pub proof fn lemma_start(a: App, msg: Msg, b: App, u: Update)
    requires
        a.wf(),
        msg is Run || msg is IncreaseBudget,
        step(a, msg, b, u),
    ensures
        b.running,
        !b.error,
        b.session is Some,
        b.session.unwrap().instructions == 0,
        !b.session.unwrap().done,
        b.session.unwrap().rx_queue@.len() == 0,
        b.session.unwrap().interactive == (a.data@.len() == 0),
        b.source == a.source,
        b.data == a.data,
        b.selected == a.selected,
        msg is Run ==> b.max_instrs == DEFAULT_MAX_INSTRS,
        msg is IncreaseBudget && a.max_instrs * 4 <= u64::MAX ==> b.max_instrs == a.max_instrs * 4,
        msg is IncreaseBudget && a.max_instrs * 4 > u64::MAX ==> b.max_instrs == u64::MAX,
        u.effects@.len() > 0,
        u.effects@[0] matches Effect::Boot(w) && w@ == boot_image(
            a.interpreter@,
            a.source@,
            a.data@,
        ),
{
}

/// A tick of a budgeted run asks for at least one and at most a full batch
/// of instructions, never more than what is left of the budget, and ends the
/// run with an error and the offer to raise the budget once the budget is
/// used up; an interactive run always asks for a full batch.
pub proof fn lemma_tick_respects_budget(a: App, b: App, u: Update)
    requires
        a.wf(),
        a.running,
        step(a, Msg::Tick, b, u),
    ensures
        a.session.unwrap().interactive ==> u.effects@ == seq![
            Effect::RunBatch { rx_byte: next_input(a.session.unwrap().rx_queue@), batch: BATCH_SIZE },
        ],
        !a.session.unwrap().interactive && a.session.unwrap().instructions < a.max_instrs ==> {
            &&& u.effects@.len() == 1
            &&& u.effects@[0] matches Effect::RunBatch { batch, .. } && 0 < batch <= BATCH_SIZE
                && a.session.unwrap().instructions + batch <= a.max_instrs
            &&& b.running
        },
        !a.session.unwrap().interactive && a.session.unwrap().instructions >= a.max_instrs ==> {
            &&& !b.running
            &&& b.error
            &&& b.budget_exhausted
            &&& b.status == Status::OutOfBudget(a.session.unwrap().instructions)
        },
{
}

/// When the emulator reports a batch, the run's count grows by exactly what
/// it ran; a clean halt ends the run without error, any other stop ends it
/// with an error, and a batch cut by its limit keeps the run going.
pub proof fn lemma_batch_report(a: App, outcome: BatchOutcome, b: App, u: Update)
    requires
        a.wf(),
        a.batch_in_flight is Some,
        batch_step(a, outcome, b, u),
    ensures
        b.session.unwrap().instructions == a.session.unwrap().instructions
            + outcome.instructions_run,
        outcome.reason == StopReason::Halted ==> !b.running && !b.error && b.status == Status::Done(
            b.session.unwrap().instructions,
        ),
        outcome.reason != StopReason::Halted && outcome.reason != StopReason::CycleLimit ==> !b.running
            && b.error,
        outcome.reason == StopReason::CycleLimit && outcome.instructions_run > 0 ==> b.running
            && b.status == Status::Running(b.session.unwrap().instructions),
        b.batch_in_flight is None,
{
}

impl App {
    /// The page's consistency: a demo is selected; a run in progress has a
    /// live session, shows no error and no budget stop; a run stopped by its
    /// budget is over and shows an error; the status line says "running"
    /// exactly while a run is in progress; the budget is never below the
    /// default; and the batch in flight of a budgeted run fits in what is
    /// left of its budget.
    pub open spec fn wf(&self) -> bool {
        &&& self.selected < demo_names().len()
        &&& self.session matches Some(s) ==> s.wf()
        &&& self.running ==> self.session is Some && !self.session.unwrap().done
        &&& self.running ==> !self.error && !self.budget_exhausted
        &&& self.budget_exhausted ==> self.error && !self.running
        &&& self.running <==> (self.status is Starting || self.status is Running)
        &&& self.max_instrs >= DEFAULT_MAX_INSTRS
        &&& self.batch_in_flight matches Some(b) ==> {
            &&& self.running
            &&& b > 0
            &&& !self.session.unwrap().interactive ==> self.session.unwrap().instructions + b
                <= self.max_instrs
        }
    }
}

impl App {
    /// The page as it first appears: the default demo loaded, the default
    /// budget, no run.
    pub fn create(interpreter: Vec<u8>) -> (app: App)
        ensures
            app.wf(),
            fresh_demo(app, app.selected as int),
            demo_names()[app.selected as int] == "hello"@,
            app.source@ == HELLO_SOURCE@,
            app.data@.len() == 0,
            app.interpreter == interpreter,
            app.max_instrs == DEFAULT_MAX_INSTRS,
    {
        let idx = default_demo_index();
        let mut app = App {
            interpreter,
            selected: idx,
            source: String::new(),
            data: String::new(),
            status: Status::Idle,
            error: false,
            session: None,
            running: false,
            max_instrs: DEFAULT_MAX_INSTRS,
            budget_exhausted: false,
            batch_in_flight: None,
        };
        app.load_demo(idx);
        proof {
            lemma_demo_sources_by_name();
            reveal_strlit("hello");
            reveal_strlit("input");
            assert("hello"@[0] != "input"@[0]);
        }
        app
    }

    /// Loads demo `idx` when there is one; does nothing otherwise.
    fn load_demo(&mut self, idx: usize) -> (effects: Vec<Effect>)
        ensures
            idx < demo_names().len() ==> {
                &&& fresh_demo(*final(self), idx as int)
                &&& final(self).interpreter == old(self).interpreter
                &&& final(self).max_instrs == old(self).max_instrs
                &&& effects@ == load_effects()
            },
            idx >= demo_names().len() ==> *final(self) == *old(self) && effects@ == Seq::<
                Effect,
            >::empty(),
    {
        let table = demos();
        if idx < table.len() {
            let demo = &table[idx];
            assert(is_demo(table@[idx as int], idx as int));
            self.selected = idx;
            self.source = String::from_str(demo.source);
            self.data = String::from_str(demo.data.unwrap_or(""));
            self.status = Status::Idle;
            self.error = false;
            self.session = None;
            self.running = false;
            self.budget_exhausted = false;
            self.batch_in_flight = None;
            proof {
                reveal_strlit("");
            }
            assert(self.source@ == demo_sources()[idx as int]);
            assert(self.data@ == demo_data_text(idx as int));
            assert(self.status is Idle);
            let effects = vec![Effect::ClearOutput, Effect::Discard, Effect::ResetClock];
            assert(effects@ =~= load_effects());
            effects
        } else {
            Vec::new()
        }
    }

    /// Starts a run of the current source and data.
    fn start_run(&mut self) -> (effects: Vec<Effect>)
        requires
            image_fits(old(self).interpreter@, old(self).source@, old(self).data@),
        ensures
            started(*old(self), *final(self), effects@),
            final(self).session.unwrap().wf(),
            final(self).max_instrs == old(self).max_instrs,
    {
        let (session, writes) = Session::new(
            self.interpreter.as_slice(),
            self.source.as_str(),
            self.data.as_str(),
        );
        self.session = Some(session);
        self.running = true;
        self.error = false;
        self.budget_exhausted = false;
        self.batch_in_flight = None;
        self.status = Status::Starting;
        vec![Effect::Boot(writes), Effect::ClearOutput, Effect::StartClock, Effect::ScheduleTick]
    }

    /// Ends the run with this status line.
    fn finish(&mut self, status: Status, error: bool) -> (effects: Vec<Effect>)
        ensures
            finished(*old(self), *final(self), status, error),
            effects@ == finish_effects(*old(self)),
    {
        self.running = false;
        self.status = status;
        self.error = error;
        self.batch_in_flight = None;
        if self.session.is_some() {
            vec![Effect::MeasureElapsed, Effect::ShowSessionOutput]
        } else {
            vec![Effect::MeasureElapsed]
        }
    }

    /// Reacts to a message.
    pub fn update(&mut self, msg: Msg) -> (u: Update)
        requires
            old(self).wf(),
            old(self).batch_in_flight is None,
            starts_run(msg) ==> image_fits(
                old(self).interpreter@,
                old(self).source@,
                old(self).data@,
            ),
        ensures
            final(self).wf(),
            step(*old(self), msg, *final(self), u),
    {
        match msg {
            Msg::SelectDemo(idx) => self.select_demo(idx),
            Msg::SourceChanged(text) => self.source_changed(text),
            Msg::DataChanged(text) => self.data_changed(text),
            Msg::StdinSubmit(line) => self.stdin_submit(line),
            Msg::Run => self.run(),
            Msg::IncreaseBudget => self.increase_budget(),
            Msg::Stop => self.stop(),
            Msg::Reset => self.reset(),
            Msg::Clear => self.clear(),
            Msg::Tick => self.tick(),
            Msg::KeyDown { key, ctrl, meta } => self.key_pressed(key, ctrl, meta),
        }
    }

    /// Takes the edited source text.
    fn source_changed(&mut self, text: String) -> (u: Update)
        requires
            old(self).wf(),
            old(self).batch_in_flight is None,
        ensures
            final(self).wf(),
            step(*old(self), Msg::SourceChanged(text), *final(self), u),
    {
        self.source = text;
        Update { rerender: false, effects: Vec::new() }
    }

    /// Takes the edited input data text.
    fn data_changed(&mut self, text: String) -> (u: Update)
        requires
            old(self).wf(),
            old(self).batch_in_flight is None,
        ensures
            final(self).wf(),
            step(*old(self), Msg::DataChanged(text), *final(self), u),
    {
        self.data = text;
        Update { rerender: false, effects: Vec::new() }
    }

    /// Starts a run with the default budget.
    fn run(&mut self) -> (u: Update)
        requires
            old(self).wf(),
            old(self).batch_in_flight is None,
            image_fits(old(self).interpreter@, old(self).source@, old(self).data@),
        ensures
            final(self).wf(),
            step(*old(self), Msg::Run, *final(self), u),
    {
        self.max_instrs = DEFAULT_MAX_INSTRS;
        let effects = self.start_run();
        Update { rerender: true, effects }
    }

    /// Starts a run again with four times the budget.
    fn increase_budget(&mut self) -> (u: Update)
        requires
            old(self).wf(),
            old(self).batch_in_flight is None,
            image_fits(old(self).interpreter@, old(self).source@, old(self).data@),
        ensures
            final(self).wf(),
            step(*old(self), Msg::IncreaseBudget, *final(self), u),
    {
        self.max_instrs = match self.max_instrs.checked_mul(4) {
            Some(quad) => quad,
            None => u64::MAX,
        };
        let effects = self.start_run();
        Update { rerender: true, effects }
    }

    /// Ends the run in progress, if any.
    fn stop(&mut self) -> (u: Update)
        requires
            old(self).wf(),
            old(self).batch_in_flight is None,
        ensures
            final(self).wf(),
            step(*old(self), Msg::Stop, *final(self), u),
    {
        if self.running {
            let instrs = self.session.as_ref().unwrap().instructions;
            let effects = self.finish(Status::Stopped(instrs), false);
            Update { rerender: true, effects }
        } else {
            Update { rerender: true, effects: Vec::new() }
        }
    }

    /// Reloads the selected demo, discarding edits and the run.
    fn reset(&mut self) -> (u: Update)
        requires
            old(self).wf(),
            old(self).batch_in_flight is None,
        ensures
            final(self).wf(),
            step(*old(self), Msg::Reset, *final(self), u),
    {
        let idx = self.selected;
        self.running = false;
        self.session = None;
        let mut effects = vec![Effect::Discard];
        let mut loaded = self.load_demo(idx);
        effects.append(&mut loaded);
        self.max_instrs = DEFAULT_MAX_INSTRS;
        assert(effects@ =~= seq![Effect::Discard] + load_effects());
        Update { rerender: true, effects }
    }

    /// Empties the output panel; without a run in progress the status line goes back to idle.
    fn clear(&mut self) -> (u: Update)
        requires
            old(self).wf(),
            old(self).batch_in_flight is None,
        ensures
            final(self).wf(),
            step(*old(self), Msg::Clear, *final(self), u),
    {
        if !self.running {
            self.status = Status::Idle;
            self.error = false;
            self.budget_exhausted = false;
        }
        let effects = vec![Effect::ClearOutput];
        assert(effects@ =~= seq![Effect::ClearOutput]);
        Update { rerender: true, effects }
    }

    /// Reacts to a key press: Ctrl/Cmd+Enter runs, Escape stops a run.
    fn key_pressed(&mut self, key: Key, ctrl: bool, meta: bool) -> (u: Update)
        requires
            old(self).wf(),
            old(self).batch_in_flight is None,
        ensures
            final(self).wf(),
            step(*old(self), Msg::KeyDown { key, ctrl, meta }, *final(self), u),
    {
        let effects = key_down(key, ctrl, meta, self.running);
        Update { rerender: false, effects }
    }

    /// Loads the demo picked from the menu, with the default budget.
    fn select_demo(&mut self, idx: usize) -> (u: Update)
        requires
            old(self).wf(),
            old(self).batch_in_flight is None,
        ensures
            final(self).wf(),
            step(*old(self), Msg::SelectDemo(idx), *final(self), u),
    {
        let effects = self.load_demo(idx);
        self.max_instrs = DEFAULT_MAX_INSTRS;
        Update { rerender: true, effects }
    }

    /// Feeds a submitted line, with a newline after it, to an interactive run.
    fn stdin_submit(&mut self, line: String) -> (u: Update)
        requires
            old(self).wf(),
            old(self).batch_in_flight is None,
        ensures
            final(self).wf(),
            step(*old(self), Msg::StdinSubmit(line), *final(self), u),
    {
        if self.session.is_some() {
            let mut session = self.session.take().unwrap();
            if session.is_interactive() {
                let ghost before = session;
                let bytes = line.as_str().as_bytes();
                let n = bytes.len();
                let mut i: usize = 0;
                while i < n
                    invariant
                        n == bytes@.len(),
                        bytes@ == encode_utf8(line@),
                        i <= n,
                        session == (Session { rx_queue: session.rx_queue, ..before }),
                        session.rx_queue@ == before.rx_queue@ + bytes@.take(i as int),
                    decreases n - i,
                {
                    session.send_input_byte(bytes[i]);
                    i = i + 1;
                    assert(session.rx_queue@ =~= before.rx_queue@ + bytes@.take(i as int));
                }
                session.send_input_byte(10u8);
                assert(bytes@.take(n as int) =~= bytes@);
                assert(session.rx_queue@ =~= before.rx_queue@ + encode_utf8(line@).push(10u8));
                self.session = Some(session);
                let effects = vec![Effect::ClearStdin];
                assert(effects@ =~= seq![Effect::ClearStdin]);
                return Update { rerender: false, effects };
            }
            self.session = Some(session);
        }
        Update { rerender: false, effects: Vec::new() }
    }

    /// Runs the next batch of the current run, or ends a run whose budget is
    /// used up.
    fn tick(&mut self) -> (u: Update)
        requires
            old(self).wf(),
            old(self).batch_in_flight is None,
        ensures
            final(self).wf(),
            tick_step(*old(self), *final(self), u),
    {
        if !self.running {
            return Update { rerender: false, effects: Vec::new() };
        }
        if self.session.is_none() {
            self.running = false;
            return Update { rerender: true, effects: Vec::new() };
        }
        let mut session = self.session.take().unwrap();
        let batch = if session.is_interactive() {
            BATCH_SIZE
        } else {
            let remaining = self.max_instrs.saturating_sub(session.instructions);
            if remaining == 0 {
                let instrs = session.instructions;
                self.session = Some(session);
                self.budget_exhausted = true;
                let effects = self.finish(Status::OutOfBudget(instrs), true);
                return Update { rerender: true, effects };
            }
            if remaining < BATCH_SIZE {
                remaining
            } else {
                BATCH_SIZE
            }
        };
        let plan = session.tick(batch);
        self.session = Some(session);
        match plan {
            TickPlan::Run { rx_byte, batch } => {
                self.batch_in_flight = Some(batch);
                let effects = vec![Effect::RunBatch { rx_byte, batch }];
                assert(effects@ =~= seq![Effect::RunBatch { rx_byte, batch }]);
                Update { rerender: true, effects }
            },
            TickPlan::Idle(result) => self.after_batch(result),
        }
    }

    /// Takes in what the emulator reported for the batch asked for by the
    /// last tick.
    pub fn batch_done(&mut self, outcome: BatchOutcome) -> (u: Update)
        requires
            old(self).wf(),
            old(self).batch_in_flight matches Some(b) && outcome.instructions_run <= b,
            old(self).session.unwrap().interactive ==> old(self).session.unwrap().instructions
                + outcome.instructions_run <= u64::MAX,
        ensures
            final(self).wf(),
            batch_step(*old(self), outcome, *final(self), u),
            !old(self).session.unwrap().interactive ==> final(self).session.unwrap().instructions
                <= final(self).max_instrs,
    {
        let mut session = self.session.take().unwrap();
        let result = session.complete_batch(outcome);
        self.session = Some(session);
        self.batch_in_flight = None;
        self.after_batch(result)
    }

    /// Ends the run when its session stopped, else shows its progress and
    /// schedules the next tick.
    fn after_batch(&mut self, result: TickResult) -> (u: Update)
        requires
            old(self).session is Some,
            old(self).session.unwrap().wf(),
            result.done == old(self).session.unwrap().done,
            old(self).batch_in_flight is None,
        ensures
            result.done ==> *final(self) == (App {
                running: false,
                status: end_status(old(self).session.unwrap()),
                error: !old(self).session.unwrap().halted,
                ..*old(self)
            }) && u.effects@ == seq![Effect::MeasureElapsed, Effect::ShowSessionOutput],
            !result.done ==> *final(self) == (App {
                status: Status::Running(old(self).session.unwrap().instructions),
                ..*old(self)
            }) && u.effects@ == seq![
                Effect::ShowSessionOutput,
                Effect::MeasureElapsed,
                Effect::ScheduleTick,
            ],
            u.rerender,
    {
        let s = self.session.as_ref().unwrap();
        let instrs = s.instructions;
        if result.done {
            let halted = s.halted;
            let status = if halted {
                Status::Done(instrs)
            } else {
                Status::Failed(s.stop_reason.clone(), instrs)
            };
            let effects = self.finish(status, !halted);
            Update { rerender: true, effects }
        } else {
            self.status = Status::Running(instrs);
            Update {
                rerender: true,
                effects: vec![Effect::ShowSessionOutput, Effect::MeasureElapsed, Effect::ScheduleTick],
            }
        }
    }

    /// Whether a run of the current source and data fits in the emulator's
    /// address space, as Run and IncreaseBudget need.
    pub fn can_start(&self) -> (res: bool)
        ensures
            res == image_fits(self.interpreter@, self.source@, self.data@),
    {
        fits_in_memory(self.interpreter.as_slice(), self.source.as_str(), self.data.as_str())
    }

    /// Whether the stdin field is shown: an interactive run is in progress.
    pub fn shows_stdin(&self) -> (res: bool)
        ensures
            res == (self.running && self.session is Some && self.session.unwrap().interactive),
    {
        let interactive = match &self.session {
            Some(s) => s.is_interactive(),
            None => false,
        };
        interactive && self.running
    }

    /// The style class of the status line: marked as an error when the
    /// last run failed.
    pub fn status_class(&self) -> (res: &'static str)
        ensures
            res@ == if self.error {
                "status status-error"@
            } else {
                "status"@
            },
    {
        if self.error {
            "status status-error"
        } else {
            "status"
        }
    }
}

} // verus!
