# cs2_dumper

The verified core of a tool that dumps offsets from a game process into
header files and keeps a user's own header up to date with a new dump.

- `src/grammar.rs`: the grammar of offset declarations
  (`constexpr std::ptrdiff_t NAME = 0xHEX`) and its scanner.
- `src/parser.rs`: reading the offsets a header declares, and updating a
  header from a dump (rewriting values, replacing the banner, counting),
  and gathering the headers of an output directory.
- `src/offset_map.rs`: offsets by name.
- `src/clock.rs`: writing a date and time as text, through chrono.
- `src/text.rs`: characters and numbers in base 10 and 16.
- `src/config.rs`, `src/ui.rs`: the dump settings, the console and the
  window's state and decisions.
- `src/laws.rs`: properties across functions (banners, round trips).
- `app/`: the program: file and directory I/O, the clock, the egui window, logging,
  and reading the game's memory.
