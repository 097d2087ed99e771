//! A SNOBOL4 program run on the COR24 emulator, driven in batches.
//!
//! The memory image follows the host `run-snobol4.sh` layout:
//!   - the SNOBOL4 interpreter binary at 0x000000,
//!   - the SNOBOL4 source at 0x080000, NUL-terminated,
//!   - the input data, when there is any, at 0x090000, NUL-terminated,
//!   - entry point (PC) 0.
//!
//! `Session` holds what the runner decides between emulator batches: the
//! instruction count, whether and why the run stopped, and the bytes typed
//! by the user that still wait for the UART receive register. The emulator
//! itself is driven by the caller: `Session::tick` says which byte (if any) to
//! hand to the UART and how many instructions to run, and
//! `Session::complete_batch` takes what the emulator reported back.
use std::collections::VecDeque;
use vstd::prelude::*;
use vstd::utf8::encode_utf8;
use crate::text::{hex_padded, push_hex_padded, lemma_hex_padded_renders, lemma_shows_number, renders, shows_number};

verus! {

/// Address at which the interpreter binary is loaded.
pub const INTERPRETER_ADDR: u32 = 0x000000;

/// Address at which the SNOBOL4 source is loaded.
pub const SRC_ADDR: u32 = 0x080000;

/// Address at which the input data is loaded.
pub const DATA_ADDR: u32 = 0x090000;

/// Program counter at which the run starts.
pub const ENTRY_PC: u32 = 0;

/// The byte writes that load `bytes` at consecutive addresses from `base`.
pub open spec fn placed(base: nat, bytes: Seq<u8>) -> Seq<(u32, u8)> {
    Seq::new(bytes.len(), |i: int| ((base + i) as u32, bytes[i]))
}

/// The byte writes, in order, that set up a run of `src` with input `data`
/// on top of the interpreter image `interpreter`.
pub open spec fn boot_image(interpreter: Seq<u8>, src: Seq<char>, data: Seq<char>) -> Seq<(u32, u8)> {
    placed(INTERPRETER_ADDR as nat, interpreter) + placed(SRC_ADDR as nat, encode_utf8(src).push(0u8))
        + if data.len() == 0 {
        Seq::<(u32, u8)>::empty()
    } else {
        placed(DATA_ADDR as nat, encode_utf8(data).push(0u8))
    }
}

/// Every address of the image fits in the emulator's 32-bit address argument.
pub open spec fn image_fits(interpreter: Seq<u8>, src: Seq<char>, data: Seq<char>) -> bool {
    &&& interpreter.len() <= 0x1_0000_0000
    &&& SRC_ADDR + encode_utf8(src).len() <= u32::MAX
    &&& DATA_ADDR + encode_utf8(data).len() <= u32::MAX
}

/// The boot image loads the interpreter byte by byte from address 0, then
/// the source's UTF-8 bytes from 0x080000 with a NUL after them, then, only
/// when there is data, its UTF-8 bytes from 0x090000 with a NUL after them.
pub proof fn lemma_boot_image_layout(interpreter: Seq<u8>, src: Seq<char>, data: Seq<char>)
    requires
        image_fits(interpreter, src, data),
    ensures
        ({
            let img = boot_image(interpreter, src, data);
            let n = interpreter.len() as int;
            let sb = encode_utf8(src);
            let db = encode_utf8(data);
            &&& forall|i: int| 0 <= i < n ==> img[i] == (i as u32, #[trigger] interpreter[i])
            &&& forall|i: int|
                0 <= i < sb.len() ==> img[n + i] == ((0x080000 + i) as u32, #[trigger] sb[i])
            &&& img[n + sb.len()] == ((0x080000 + sb.len()) as u32, 0u8)
            &&& data.len() == 0 ==> img.len() == n + sb.len() + 1
            &&& data.len() > 0 ==> {
                &&& img.len() == n + sb.len() + db.len() + 2
                &&& forall|i: int|
                    0 <= i < db.len() ==> img[n + sb.len() + 1 + i] == (
                        (0x090000 + i) as u32,
                        #[trigger] db[i],
                    )
                &&& img[n + sb.len() + 1 + db.len()] == ((0x090000 + db.len()) as u32, 0u8)
            }
        }),
{
}

/// Whether the image of `src` with input `data` on top of `interpreter`
/// fits in the emulator's 32-bit address argument.
pub fn fits_in_memory(interpreter: &[u8], src: &str, data: &str) -> (res: bool)
    ensures
        res == image_fits(interpreter@, src@, data@),
{
    let n = interpreter.len() as u64;
    let s = src.as_bytes().len() as u64;
    let d = data.as_bytes().len() as u64;
    n <= 0x1_0000_0000u64 && s <= (u32::MAX - SRC_ADDR) as u64 && d <= (u32::MAX - DATA_ADDR) as u64
}

/// Why the emulator ended a batch.
#[derive(PartialEq, Eq, Structural, Clone, Copy, Debug)]
pub enum StopReason {
    /// The program executed HALT.
    Halted,
    /// The byte at the program counter is not an instruction.
    InvalidInstruction(u8),
    /// A breakpoint at the given address was hit.
    Breakpoint(u32),
    /// The emulator was paused.
    Paused,
    /// The stack pointer went above its bound.
    StackOverflow(u32),
    /// The stack pointer went below its bound.
    StackUnderflow(u32),
    /// The batch's instruction limit was reached.
    CycleLimit,
}

/// What the emulator reported after running a batch.
#[derive(PartialEq, Eq, Structural, Clone, Copy, Debug)]
pub struct BatchOutcome {
    /// Instructions executed in this batch.
    pub instructions_run: u64,
    /// Why the batch ended.
    pub reason: StopReason,
    /// The program counter after the batch.
    pub pc: u32,
}

/// Result of a single batched tick.
#[derive(PartialEq, Eq, Structural, Clone, Copy, Debug)]
pub struct TickResult {
    pub instructions_run: u64,
    pub done: bool,
}

/// What a tick asks of the emulator.
#[derive(PartialEq, Eq, Structural, Clone, Copy, Debug)]
pub enum TickPlan {
    /// The session has already stopped: nothing is run.
    Idle(TickResult),
    /// Hand `rx_byte` (when there is one) to the UART receive register, then
    /// run up to `batch` instructions and report back with
    /// `Session::complete_batch`.
    Run { rx_byte: Option<u8>, batch: u64 },
}

/// The plan of a tick on a stopped session.
pub open spec fn idle_plan() -> TickPlan {
    TickPlan::Idle(TickResult { instructions_run: 0, done: true })
}

/// The plan of a tick on a live session.
pub open spec fn run_plan(rx_byte: Option<u8>, batch: u64) -> TickPlan {
    TickPlan::Run { rx_byte, batch }
}

/// The input byte handed over next: the oldest queued one.
pub open spec fn next_input(queue: Seq<u8>) -> Option<u8> {
    if queue.len() > 0 {
        Some(queue[0])
    } else {
        None
    }
}

/// The queue once its oldest byte (if any) has been handed over.
pub open spec fn after_next_input(queue: Seq<u8>) -> Seq<u8> {
    if queue.len() > 0 {
        queue.drop_first()
    } else {
        queue
    }
}

/// The result a batch with this outcome gives, given whether the run is over.
pub open spec fn batch_result(outcome: BatchOutcome, done: bool) -> TickResult {
    TickResult { instructions_run: outcome.instructions_run, done }
}

/// Whether a batch with this outcome ends the run.
pub open spec fn ends_run(outcome: BatchOutcome) -> bool {
    !(outcome.reason == StopReason::CycleLimit && outcome.instructions_run > 0)
}

/// The stop reason recorded for a batch that ends the run.
pub open spec fn stop_message(outcome: BatchOutcome) -> Seq<char> {
    match outcome.reason {
        StopReason::Halted => "halted"@,
        StopReason::InvalidInstruction(byte) => "invalid instruction 0x"@ + hex_padded(
            byte as nat,
            2,
        ) + " at PC=0x"@ + hex_padded(outcome.pc as nat, 6),
        StopReason::Breakpoint(addr) => "breakpoint at 0x"@ + hex_padded(addr as nat, 6),
        StopReason::Paused => "paused"@,
        StopReason::StackOverflow(addr) => "stack overflow at SP=0x"@ + hex_padded(addr as nat, 6),
        StopReason::StackUnderflow(addr) => "stack underflow at SP=0x"@ + hex_padded(
            addr as nat,
            6,
        ),
        StopReason::CycleLimit => "stalled"@,
    }
}

/// The stop reason a message gives, read back: the fixed words of each
/// reason, and each address or byte in upper-case hexadecimal that reads
/// back as the number, bytes in exactly two digits and addresses in at
/// least six.
pub open spec fn message_says(m: Seq<char>, outcome: BatchOutcome) -> bool {
    match outcome.reason {
        StopReason::Halted => m == "halted"@,
        StopReason::Paused => m == "paused"@,
        StopReason::CycleLimit => m == "stalled"@,
        StopReason::Breakpoint(a) => shows_number(m, "breakpoint at 0x"@, a as nat, 16, 6, Seq::empty()),
        StopReason::StackOverflow(a) => shows_number(
            m,
            "stack overflow at SP=0x"@,
            a as nat,
            16,
            6,
            Seq::empty(),
        ),
        StopReason::StackUnderflow(a) => shows_number(
            m,
            "stack underflow at SP=0x"@,
            a as nat,
            16,
            6,
            Seq::empty(),
        ),
        StopReason::InvalidInstruction(b) => {
            let p = "invalid instruction 0x"@.len() as int;
            &&& m.len() >= p + 2
            &&& m.subrange(0, p) == "invalid instruction 0x"@
            &&& m.subrange(p, p + 2).len() == 2
            &&& renders(m.subrange(p, p + 2), b as nat, 16, 2)
            &&& shows_number(
                m.subrange(p + 2, m.len() as int),
                " at PC=0x"@,
                outcome.pc as nat,
                16,
                6,
                Seq::empty(),
            )
        },
    }
}

/// Every stop reason says what stopped the run, with its numbers in
/// hexadecimal that reads back as them.
pub proof fn lemma_stop_message_says(outcome: BatchOutcome)
    ensures
        message_says(stop_message(outcome), outcome),
{
    let m = stop_message(outcome);
    match outcome.reason {
        StopReason::Breakpoint(a) => {
            lemma_hex_padded_renders(a as nat, 6);
            lemma_shows_number("breakpoint at 0x"@, hex_padded(a as nat, 6), Seq::empty(), a as nat, 16, 6);
            assert(m =~= "breakpoint at 0x"@ + hex_padded(a as nat, 6) + Seq::empty());
        },
        StopReason::StackOverflow(a) => {
            lemma_hex_padded_renders(a as nat, 6);
            lemma_shows_number("stack overflow at SP=0x"@, hex_padded(a as nat, 6), Seq::empty(), a as nat, 16, 6);
            assert(m =~= "stack overflow at SP=0x"@ + hex_padded(a as nat, 6) + Seq::empty());
        },
        StopReason::StackUnderflow(a) => {
            lemma_hex_padded_renders(a as nat, 6);
            lemma_shows_number("stack underflow at SP=0x"@, hex_padded(a as nat, 6), Seq::empty(), a as nat, 16, 6);
            assert(m =~= "stack underflow at SP=0x"@ + hex_padded(a as nat, 6) + Seq::empty());
        },
        StopReason::InvalidInstruction(b) => {
            let p = "invalid instruction 0x"@.len() as int;
            let hb = hex_padded(b as nat, 2);
            let hp = hex_padded(outcome.pc as nat, 6);
            lemma_hex_padded_renders(b as nat, 2);
            lemma_hex_padded_renders(outcome.pc as nat, 6);
            assert(hb.len() == 2);
            assert(m.subrange(0, p) =~= "invalid instruction 0x"@);
            assert(m.subrange(p, p + 2) =~= hb);
            lemma_shows_number(" at PC=0x"@, hp, Seq::empty(), outcome.pc as nat, 16, 6);
            assert(m.subrange(p + 2, m.len() as int) =~= " at PC=0x"@ + hp + Seq::empty());
        },
        _ => {},
    }
}

/// Whether `after` is `before` once the emulator has reported `outcome` for
/// the batch it was asked to run.
pub open spec fn completed(before: Session, outcome: BatchOutcome, after: Session) -> bool {
    &&& after.instructions == before.instructions + outcome.instructions_run
    &&& after.done == ends_run(outcome)
    &&& after.halted == (outcome.reason == StopReason::Halted)
    &&& after.done ==> after.stop_reason@ == stop_message(outcome)
    &&& !after.done ==> after.stop_reason == before.stop_reason
    &&& after.rx_queue == before.rx_queue
    &&& after.interactive == before.interactive
}

/// A live run of a SNOBOL4 program.
pub struct Session {
    pub instructions: u64,
    pub done: bool,
    pub stop_reason: String,
    /// True if the program halted cleanly (HALT instruction).
    pub halted: bool,
    /// True if no data was provided: the interpreter then reads its input
    /// from the UART, live.
    pub interactive: bool,
    /// Bytes waiting for the UART receive register, which holds one byte at
    /// a time; one is handed over per tick.
    pub rx_queue: VecDeque<u8>,
}

impl Session {
    /// Bytes typed by the user that have not been handed to the UART yet.
    pub open spec fn pending_input(&self) -> Seq<u8> {
        self.rx_queue@
    }

    /// The session's own consistency: a stop reason is recorded exactly when
    /// the run is over, the reason reads "halted" exactly when the program
    /// halted cleanly, and a clean halt ends the run.
    pub open spec fn wf(&self) -> bool {
        &&& self.done <==> self.stop_reason@.len() > 0
        &&& self.halted <==> self.stop_reason@ == "halted"@
        &&& self.halted ==> self.done
    }

    /// Builds a fresh session for `src` with input `data`, together with the
    /// byte writes that load the interpreter, the source and the data into
    /// the emulator's memory.
    pub fn new(interpreter: &[u8], src: &str, data: &str) -> (res: (Session, Vec<(u32, u8)>))
        requires
            image_fits(interpreter@, src@, data@),
        ensures
            res.0.wf(),
            res.0.instructions == 0,
            !res.0.done,
            !res.0.halted,
            res.0.stop_reason@ == Seq::<char>::empty(),
            res.0.interactive == (data@.len() == 0),
            res.0.pending_input() == Seq::<u8>::empty(),
            res.1@ == boot_image(interpreter@, src@, data@),
    {
        let mut writes: Vec<(u32, u8)> = Vec::new();
        place(&mut writes, INTERPRETER_ADDR, interpreter, false);
        place(&mut writes, SRC_ADDR, src.as_bytes(), true);
        let interactive = data.is_empty();
        if !interactive {
            place(&mut writes, DATA_ADDR, data.as_bytes(), true);
        }
        assert(writes@ =~= boot_image(interpreter@, src@, data@));
        proof {
            reveal_strlit("halted");
        }
        let session = Session {
            instructions: 0,
            done: false,
            stop_reason: String::new(),
            halted: false,
            interactive,
            rx_queue: VecDeque::new(),
        };
        (session, writes)
    }

    /// Runs the first half of a tick: decides what the emulator does next.
    /// A stopped session runs nothing; otherwise at most one queued input
    /// byte is handed over, then up to `batch` instructions are run.
    pub fn tick(&mut self, batch: u64) -> (plan: TickPlan)
        requires
            old(self).wf(),
        ensures
            final(self).wf(),
            session_step(*old(self), SessionCall::Tick(batch), *final(self), handed_over(plan)),
            old(self).done ==> plan == idle_plan() && *final(self) == *old(self),
            !old(self).done ==> plan == run_plan(next_input(old(self).pending_input()), batch),
            !old(self).done ==> final(self).pending_input() == after_next_input(
                old(self).pending_input(),
            ),
            final(self).instructions == old(self).instructions,
            final(self).done == old(self).done,
            final(self).halted == old(self).halted,
            final(self).stop_reason == old(self).stop_reason,
            final(self).interactive == old(self).interactive,
    {
        if self.done {
            return TickPlan::Idle(TickResult { instructions_run: 0, done: true });
        }
        let rx_byte = self.rx_queue.pop_front();
        TickPlan::Run { rx_byte, batch }
    }

    /// Runs the second half of a tick: takes in what the emulator reported
    /// for the batch that `tick` asked for.
    pub fn complete_batch(&mut self, outcome: BatchOutcome) -> (res: TickResult)
        requires
            old(self).wf(),
            !old(self).done,
            old(self).instructions + outcome.instructions_run <= u64::MAX,
        ensures
            final(self).wf(),
            completed(*old(self), outcome, *final(self)),
            session_step(*old(self), SessionCall::Complete(outcome), *final(self), None),
            res == batch_result(outcome, final(self).done),
    {
        self.instructions = self.instructions + outcome.instructions_run;
        proof {
            reveal_strlit("halted");
            reveal_strlit("paused");
            reveal_strlit("stalled");
        }
        match outcome.reason {
            StopReason::Halted => {
                self.done = true;
                self.halted = true;
                self.stop_reason = String::from_str("halted");
            },
            StopReason::InvalidInstruction(byte) => {
                let mut s = String::from_str("invalid instruction 0x");
                push_hex_padded(&mut s, byte as u64, 2);
                s.append(" at PC=0x");
                push_hex_padded(&mut s, outcome.pc as u64, 6);
                self.done = true;
                self.stop_reason = s;
            },
            StopReason::Breakpoint(addr) => {
                let mut s = String::from_str("breakpoint at 0x");
                push_hex_padded(&mut s, addr as u64, 6);
                self.done = true;
                self.stop_reason = s;
            },
            StopReason::Paused => {
                self.done = true;
                self.stop_reason = String::from_str("paused");
            },
            StopReason::StackOverflow(addr) => {
                let mut s = String::from_str("stack overflow at SP=0x");
                push_hex_padded(&mut s, addr as u64, 6);
                self.done = true;
                self.stop_reason = s;
            },
            StopReason::StackUnderflow(addr) => {
                let mut s = String::from_str("stack underflow at SP=0x");
                push_hex_padded(&mut s, addr as u64, 6);
                self.done = true;
                self.stop_reason = s;
            },
            StopReason::CycleLimit => {
                if outcome.instructions_run == 0 {
                    self.done = true;
                    self.stop_reason = String::from_str("stalled");
                }
            },
        }
        proof {
            lemma_stop_message_nonempty(outcome);
            assert(self.halted <==> self.stop_reason@ == "halted"@);
        }
        TickResult { instructions_run: outcome.instructions_run, done: self.done }
    }

    /// Queues a byte for delivery to the emulated UART receive register.
    /// Bytes drain one per tick, in the order they were queued.
    pub fn send_input_byte(&mut self, byte: u8)
        ensures
            session_step(*old(self), SessionCall::Send(byte), *final(self), None),
            final(self).pending_input() == old(self).pending_input().push(byte),
            final(self).instructions == old(self).instructions,
            final(self).done == old(self).done,
            final(self).halted == old(self).halted,
            final(self).stop_reason == old(self).stop_reason,
            final(self).interactive == old(self).interactive,
    {
        self.rx_queue.push_back(byte);
    }

    /// True if the session was started without input data: the interpreter
    /// then reads from the UART and `send_input_byte` is meaningful.
    pub fn is_interactive(&self) -> (res: bool)
        ensures
            res == self.interactive,
    {
        self.interactive
    }
}

proof fn lemma_stop_message_nonempty(outcome: BatchOutcome)
    ensures
        stop_message(outcome).len() > 0,
        stop_message(outcome) == "halted"@ <==> outcome.reason == StopReason::Halted,
{
    reveal_strlit("halted");
    reveal_strlit("paused");
    reveal_strlit("stalled");
    reveal_strlit("invalid instruction 0x");
    reveal_strlit("breakpoint at 0x");
    reveal_strlit("stack overflow at SP=0x");
    reveal_strlit("stack underflow at SP=0x");
    let m = stop_message(outcome);
    if outcome.reason != StopReason::Halted {
        assert(m[0] != 'h' || m[1] != 'a');
    }
}

/// One call on a session.
#[derive(PartialEq, Eq, Structural, Clone, Copy, Debug)]
pub enum SessionCall {
    /// `Session::tick` with this batch size.
    Tick(u64),
    /// `Session::complete_batch` with this outcome.
    Complete(BatchOutcome),
    /// `Session::send_input_byte` with this byte.
    Send(u8),
}

/// The input byte a tick's plan hands to the UART, if any.
pub open spec fn handed_over(plan: TickPlan) -> Option<u8> {
    match plan {
        TickPlan::Idle(_) => None,
        TickPlan::Run { rx_byte, .. } => rx_byte,
    }
}

/// Whether `call` takes the session from `before` to `after`, handing
/// `handed` to the UART.
pub open spec fn session_step(before: Session, call: SessionCall, after: Session, handed: Option<
    u8,
>) -> bool {
    match call {
        SessionCall::Tick(_) => if before.done {
            after == before && handed is None
        } else {
            &&& after == Session { rx_queue: after.rx_queue, ..before }
            &&& after.rx_queue@ == after_next_input(before.rx_queue@)
            &&& handed == next_input(before.rx_queue@)
        },
        SessionCall::Complete(outcome) => {
            &&& !before.done
            &&& completed(before, outcome, after)
            &&& handed is None
        },
        SessionCall::Send(byte) => {
            &&& after == Session { rx_queue: after.rx_queue, ..before }
            &&& after.rx_queue@ == before.rx_queue@.push(byte)
            &&& handed is None
        },
    }
}

/// Whether `states` is a life of a session through `calls`, handing the
/// bytes in `handed` to the UART.
pub open spec fn session_run(states: Seq<Session>, calls: Seq<SessionCall>, handed: Seq<Option<u8>>) -> bool {
    &&& states.len() == calls.len() + 1
    &&& handed.len() == calls.len()
    &&& forall|i: int|
        0 <= i < calls.len() ==> session_step(
            #[trigger] states[i],
            calls[i],
            states[i + 1],
            handed[i],
        )
}

/// The bytes handed to the UART, in order.
pub open spec fn delivered(handed: Seq<Option<u8>>) -> Seq<u8>
    decreases handed.len(),
{
    if handed.len() == 0 {
        Seq::empty()
    } else {
        match handed.last() {
            Some(b) => delivered(handed.drop_last()).push(b),
            None => delivered(handed.drop_last()),
        }
    }
}

/// The bytes queued by `calls`, in order.
pub open spec fn typed(calls: Seq<SessionCall>) -> Seq<u8>
    decreases calls.len(),
{
    if calls.len() == 0 {
        Seq::empty()
    } else {
        match calls.last() {
            SessionCall::Send(b) => typed(calls.drop_last()).push(b),
            _ => typed(calls.drop_last()),
        }
    }
}

/// The instructions reported by `calls`.
pub open spec fn reported(calls: Seq<SessionCall>) -> int
    decreases calls.len(),
{
    if calls.len() == 0 {
        0
    } else {
        match calls.last() {
            SessionCall::Complete(o) => reported(calls.drop_last()) + o.instructions_run,
            _ => reported(calls.drop_last()),
        }
    }
}

/// The instructions reported by one call.
pub open spec fn reported_by(call: SessionCall) -> int {
    match call {
        SessionCall::Complete(o) => o.instructions_run as int,
        _ => 0,
    }
}

/// The byte queued by one call, if any.
pub open spec fn typed_by(call: SessionCall) -> Option<u8> {
    match call {
        SessionCall::Send(b) => Some(b),
        _ => None,
    }
}

/// Appends the byte, if any.
pub open spec fn push_some(s: Seq<u8>, b: Option<u8>) -> Seq<u8> {
    match b {
        Some(x) => s.push(x),
        None => s,
    }
}

proof fn lemma_one_call(a: Session, call: SessionCall, b: Session, h: Option<u8>, before: Seq<u8>)
    requires
        session_step(a, call, b, h),
        a.wf(),
    ensures
        b.wf(),
        b.interactive == a.interactive,
        a.done ==> b.done,
        b.instructions == a.instructions + reported_by(call),
        push_some(before, h) + b.rx_queue@ == push_some(before + a.rx_queue@, typed_by(call)),
{
    let q = a.rx_queue@;
    match call {
        SessionCall::Tick(_) => {
            if !a.done && q.len() > 0 {
                assert(push_some(before, h) + b.rx_queue@ =~= before + q);
            } else {
                assert(push_some(before, h) + b.rx_queue@ =~= before + q);
            }
        },
        SessionCall::Send(byte) => {
            assert(push_some(before, h) + b.rx_queue@ =~= (before + q).push(byte));
        },
        SessionCall::Complete(o) => {
            lemma_stop_message_nonempty(o);
        },
    }
}

/// Over a session's life: it stays consistent, stays interactive or not as
/// it began, never comes back once its run is over, counts exactly the
/// instructions reported to it, and hands typed bytes to the UART in the
/// order they were typed, none lost or repeated: what was handed over,
/// followed by what still waits, is what waited at first followed by what
/// was typed.
pub proof fn lemma_session_life(states: Seq<Session>, calls: Seq<SessionCall>, handed: Seq<Option<u8>>)
    requires
        session_run(states, calls, handed),
        states[0].wf(),
    ensures
        forall|i: int| 0 <= i < states.len() ==> (#[trigger] states[i]).wf(),
        forall|i: int| 0 <= i < states.len() ==> (#[trigger] states[i]).interactive == states[0].interactive,
        forall|i: int| 0 <= i < calls.len() && (#[trigger] states[i]).done ==> states[i + 1].done,
        states.last().instructions == states[0].instructions + reported(calls),
        delivered(handed) + states.last().rx_queue@ == states[0].rx_queue@ + typed(calls),
    decreases calls.len(),
{
    let n = calls.len() as int;
    if n == 0 {
        assert(delivered(handed) + states[0].rx_queue@ =~= states[0].rx_queue@ + typed(calls));
    } else {
        let ps = states.drop_last();
        let pc = calls.drop_last();
        let ph = handed.drop_last();
        assert forall|i: int| 0 <= i < pc.len() implies session_step(
            #[trigger] ps[i],
            pc[i],
            ps[i + 1],
            ph[i],
        ) by {
            assert(session_step(states[i], calls[i], states[i + 1], handed[i]));
        }
        lemma_session_life(ps, pc, ph);
        let a = states[n - 1];
        let b = states[n];
        assert(ps.last() == a);
        assert(session_step(a, calls[n - 1], b, handed[n - 1]));
        assert(a.wf()) by {
            assert(ps[n - 1].wf());
        }
        lemma_one_call(a, calls[n - 1], b, handed[n - 1], delivered(ph));
        assert(delivered(handed) == push_some(delivered(ph), handed[n - 1]));
        assert(typed(calls) == push_some(typed(pc), typed_by(calls[n - 1])));
        assert(reported(calls) == reported(pc) + reported_by(calls[n - 1]));
        assert(push_some(delivered(ph) + a.rx_queue@, typed_by(calls[n - 1])) =~= push_some(
            states[0].rx_queue@ + typed(pc),
            typed_by(calls[n - 1]),
        ));
        assert(push_some(states[0].rx_queue@ + typed(pc), typed_by(calls[n - 1]))
            =~= states[0].rx_queue@ + typed(calls));
        assert forall|i: int| 0 <= i < states.len() implies (#[trigger] states[i]).wf()
            && states[i].interactive == states[0].interactive by {
            if i < n {
                assert(states[i] == ps[i]);
            }
        }
        assert forall|i: int| 0 <= i < calls.len() && (#[trigger] states[i]).done implies states[i
            + 1].done by {
            if i < n - 1 {
                assert(states[i] == ps[i]);
                assert(states[i + 1] == ps[i + 1]);
            }
        }
    }
}

/// Typed bytes reach the UART one per tick, in the order they were typed:
/// on a live session with nothing queued, after `k` bytes are typed, each
/// of `k` ticks on the still-live session hands over the next of them, and
/// then nothing waits any more.
pub proof fn lemma_typed_bytes_in_order(
    states: Seq<Session>,
    calls: Seq<SessionCall>,
    handed: Seq<Option<u8>>,
    bytes: Seq<u8>,
)
    requires
        session_run(states, calls, handed),
        states[0].rx_queue@ == Seq::<u8>::empty(),
        calls.len() == 2 * bytes.len(),
        forall|i: int| 0 <= i < bytes.len() ==> calls[i] == SessionCall::Send(#[trigger] bytes[i]),
        forall|i: int|
            bytes.len() <= i < calls.len() ==> (#[trigger] calls[i]) is Tick && !states[i].done,
    ensures
        forall|i: int| 0 <= i < bytes.len() ==> handed[bytes.len() + i] == Some(#[trigger] bytes[i]),
        states.last().rx_queue@ == Seq::<u8>::empty(),
{
    let k = bytes.len() as int;
    assert forall|i: int| 0 <= i <= k implies (#[trigger] states[i]).rx_queue@ == bytes.take(i) by {
        lemma_queue_after_typing(states, calls, handed, bytes, i);
    }
    assert forall|i: int| 0 <= i <= k implies (#[trigger] states[k + i]).rx_queue@ == bytes.skip(i) by {
        lemma_queue_after_ticks(states, calls, handed, bytes, i);
    }
    assert forall|i: int| 0 <= i < k implies handed[k + i] == Some(#[trigger] bytes[i]) by {
        assert(states[k + i].rx_queue@ == bytes.skip(i));
        assert(session_step(states[k + i], calls[k + i], states[k + i + 1], handed[k + i]));
        assert(bytes.skip(i)[0] == bytes[i]);
    }
    assert(states.last() == states[k + k]);
    assert(bytes.skip(k) =~= Seq::<u8>::empty());
}

proof fn lemma_queue_after_typing(
    states: Seq<Session>,
    calls: Seq<SessionCall>,
    handed: Seq<Option<u8>>,
    bytes: Seq<u8>,
    i: int,
)
    requires
        session_run(states, calls, handed),
        states[0].rx_queue@ == Seq::<u8>::empty(),
        calls.len() == 2 * bytes.len(),
        forall|j: int| 0 <= j < bytes.len() ==> calls[j] == SessionCall::Send(#[trigger] bytes[j]),
        0 <= i <= bytes.len(),
    ensures
        states[i].rx_queue@ == bytes.take(i),
    decreases i,
{
    if i == 0 {
        assert(bytes.take(0) =~= Seq::<u8>::empty());
    } else {
        lemma_queue_after_typing(states, calls, handed, bytes, i - 1);
        assert(calls[i - 1] == SessionCall::Send(bytes[i - 1]));
        assert(session_step(states[i - 1], calls[i - 1], states[i], handed[i - 1]));
        assert(bytes.take(i) =~= bytes.take(i - 1).push(bytes[i - 1]));
    }
}

proof fn lemma_queue_after_ticks(
    states: Seq<Session>,
    calls: Seq<SessionCall>,
    handed: Seq<Option<u8>>,
    bytes: Seq<u8>,
    i: int,
)
    requires
        session_run(states, calls, handed),
        states[0].rx_queue@ == Seq::<u8>::empty(),
        calls.len() == 2 * bytes.len(),
        forall|j: int| 0 <= j < bytes.len() ==> calls[j] == SessionCall::Send(#[trigger] bytes[j]),
        forall|j: int|
            bytes.len() <= j < calls.len() ==> (#[trigger] calls[j]) is Tick && !states[j].done,
        0 <= i <= bytes.len(),
    ensures
        states[bytes.len() + i].rx_queue@ == bytes.skip(i),
    decreases i,
{
    let k = bytes.len() as int;
    if i == 0 {
        lemma_queue_after_typing(states, calls, handed, bytes, k);
        assert(bytes.take(k) =~= bytes.skip(0));
    } else {
        lemma_queue_after_ticks(states, calls, handed, bytes, i - 1);
        let j = k + i - 1;
        assert(calls[j] is Tick && !states[j].done);
        assert(session_step(states[j], calls[j], states[j + 1], handed[j]));
        assert(bytes.skip(i - 1).drop_first() =~= bytes.skip(i));
    }
}

/// Typed input reaches the UART in the order it was typed: queuing a byte
/// changes neither the byte handed over next nor the ones after it, unless
/// nothing was queued, in which case it is the one handed over next.
pub proof fn lemma_input_in_order(queue: Seq<u8>, byte: u8)
    ensures
        queue.len() == 0 ==> next_input(queue.push(byte)) == Some(byte),
        queue.len() == 0 ==> after_next_input(queue.push(byte)) == queue,
        queue.len() > 0 ==> next_input(queue.push(byte)) == next_input(queue),
        queue.len() > 0 ==> after_next_input(queue.push(byte)) == after_next_input(queue).push(
            byte,
        ),
{
    if queue.len() > 0 {
        assert(queue.push(byte).drop_first() =~= queue.drop_first().push(byte));
    } else {
        assert(queue.push(byte).drop_first() =~= queue);
    }
}

/// Appends to `writes` the byte writes that load `bytes` from `base`, with
/// a NUL byte after them when `terminate` is set.
fn place(writes: &mut Vec<(u32, u8)>, base: u32, bytes: &[u8], terminate: bool)
    requires
        base + bytes@.len() + (if terminate { 1int } else { 0int }) <= 0x1_0000_0000,
    ensures
        final(writes)@ == old(writes)@ + placed(
            base as nat,
            if terminate {
                bytes@.push(0u8)
            } else {
                bytes@
            },
        ),
{
    let ghost start = writes@;
    let n = bytes.len();
    let mut i: usize = 0;
    while i < n
        invariant
            n == bytes@.len(),
            i <= n,
            base + n <= 0x1_0000_0000,
            writes@ == start + placed(base as nat, bytes@.take(i as int)),
        decreases n - i,
    {
        let addr: u32 = base + (i as u32);
        writes.push((addr, bytes[i]));
        i = i + 1;
        assert(writes@ =~= start + placed(base as nat, bytes@.take(i as int)));
    }
    assert(bytes@.take(n as int) =~= bytes@);
    if terminate {
        let addr: u32 = base + (n as u32);
        writes.push((addr, 0u8));
        assert(writes@ =~= start + placed(base as nat, bytes@.push(0u8)));
    }
}

} // verus!
