//! The decision logic of a browser runner for SNOBOL4 programs on the COR24
//! emulator: the memory image a run starts from, the batched run session,
//! the bundled demo table, and the page's state machine.
pub mod text;
pub mod runner;
pub mod demos;
pub mod ui;
