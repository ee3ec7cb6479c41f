# katamari_ffi

A delta-time mod for a PS2-era physics simulation DLL, split in two:

- `src/` is the verified library (Verus): the machine code written into the
  simulation DLL (NOP padding, relative calls into the trampoline, the hook
  template, the trampoline itself), the table of detours keyed by call site,
  the integer timer logic of the replaced game routines (dash state machine,
  thing timers, slope and climb counters, sound cooldowns, tick/millisecond
  conversion), and the research UI's field-definition file format with its
  grammar, parser, error messages and labels.
- `app/` is the DLL around it: loading and patching the simulation DLL,
  the assembly and floating-point replacements, the game's memory layouts,
  and the egui research window.
- `tests/` exercises the library on concrete values.
