# snobol4_runner

The logic of a browser page that runs SNOBOL4 programs on the COR24
emulator, written in Verus and verified.

- `src/text.rs` – decimal and zero-padded upper-case hexadecimal rendering of
  numbers, with the digits' round trip proved.
- `src/runner.rs` – the memory image a run boots from (interpreter at
  0x000000, source at 0x080000, optional data at 0x090000, each text
  NUL-terminated) and the batched run `Session`: the UART input queue drained
  one byte per tick, the instruction count, and the stop reason.
- `src/demos.rs` – the bundled demo table, its alphabetical order and the
  default demo.
- `src/ui.rs` – the page's state machine: each message gives the next state
  and the effects the page carries out (booting the emulator, running a
  batch, reading the clock, refreshing the output panel, ...).
- `app/lib.rs` – the Yew component: it owns the emulator, the clock and the
  DOM, and performs the effects.
