# gioco_ragazzo

A Game Boy emulator core written in Verus. Each operation has a contract
over a mathematical model of the machine, and Verus proves it.

- `src/cpu.rs`: registers, opcode decoding and the instruction set,
  including the whole CB-prefixed group (rotates, shifts, SWAP, BIT, RES,
  SET). `CpuView::step` defines one fetch-decode-execute step, and
  `Cpu::step` is proved to follow it; `CpuView::step_ok` asks of the
  ROM bank offsets only those of the addresses the instruction touches.
- `src/mmu.rs`: the memory bus. It covers cartridges (ROM only, MBC1, MBC3
  with RTC registers), RAM, the timers, the joypad, the serial port and OAM
  DMA. `MmuView::read` and `MmuView::write` define the memory map.
- `src/ppu.rs`: LCD timing, and the background, window and sprite
  renderers (`PpuView::tick`, `PpuView::render_scanline`). Sprites with
  the priority flag show only over background/window colour id 0, the
  window and both tile data areas included.
- `src/arith.rs`: fixed-width arithmetic used by the specifications.
- `src/laws.rs`: properties that span operations, such as read-after-write,
  little-endian words, push/pop, CALL/RET, the flag arithmetic of the ALU,
  DAA on BCD operands, the rotate inverses, the ten-sprite limit and how
  LY and STAT move on a tick.
- `app/main.rs`: the program. It reads the ROM file, opens a `minifb`
  window, feeds the joypad and prints the serial output.
- `tests/`: tests on concrete values.
