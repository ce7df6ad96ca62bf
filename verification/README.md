# rusuper

The core of a small SNES (Super Nintendo) emulator with a gdb-style debugger, written
in Verus: every function of the library carries a contract that Verus proves.

- `src/memory.rs`: the 24-bit address space, byte, word and bank access, memory dumps.
- `src/cpu.rs`, `src/cpu/`: the 65816 registers and status flags, the opcode table,
  fetch/decode/execute, and the ADC, LDA, NOP and STP instructions.
- `src/romdata.rs`: ROM header search, checksum, header decoding and placement of the
  ROM and its mirror in memory; `src/rominfo.rs`: layout descriptions.
- `src/emu.rs`: the virtual machine and what one CPU tick does.
- `src/debugger.rs`, `src/debugger/`: breakpoint and tag tables, command words, the
  command line reader, and the decisions of the debugger's run loop. The breakpoint
  command reads literal addresses (`b $808000`, `b del 0x808000`) and plain tag names
  (`b loop` tags the PC, `b del loop` deletes the tag and its breakpoint).
- `src/simple/`: a minimal machine whose CPU decodes every fetch as a no-op.
- `app/`: the command-line front end (file reading, the prompt, printing, waiting).
- `tests/`: tests of the library.

Run the front end with a ROM file: `rusuper game.sfc`, or `rusuper game.sfc --no-check`
to copy the ROM to $808000 without reading its header.
