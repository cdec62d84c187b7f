# sw-cdp1802-io

Browser I/O demos for the RCA CDP1802 (COSMAC ELF-II): a joystick read
through RC timing, a TV monitor that scans a 256-byte memory page, a
cassette loader and a few small programs, each run one instruction at a
time.

The library (`src/`) is verified with Verus. It holds the demo catalogue,
the machine's bookkeeping around each instruction, the I/O board's port
protocol, the scope and tape waveforms, and the UI's text rules:

- `kinds`: the demos, their assembly sources, descriptions and memory maps.
- `cpu`: the CPU registers between instructions, as plain values.
- `board`: the ports of the I/O board and the cassette tape.
- `scope`: the RC scope sweeps and the biphase tape waveform.
- `machine`: the demo machine. An instruction is executed in three moves:
  `begin_step` hands out the board, the emulator runs one instruction, and
  `finish_step` decides what the machine makes of the outcome.
- `text`, `listing`, `ui`: hexadecimal text, reading addresses out of the
  assembler listing, picker values, query strings and CSS classes.

`app/` is the Yew application around it: it assembles the sources, runs
the emulator and the joystick's RC networks, and draws the page.
