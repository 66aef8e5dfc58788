# terbium

A small stack machine and the parser for its line-oriented assembly
language, verified with Verus.

- `src/text.rs`: characters, lines, words, comments, trimming, decimal
  numbers, pattern removal and text order.
- `src/value.rs`, `src/instruction.rs`, `src/error.rs`: the data of the
  machine, each with its mathematical model.
- `src/parser.rs`: program text to instructions (`parse`).
- `src/vm.rs`: the machine. `VM::step` carries out one instruction; when
  an instruction needs the host (terminal, files, floating-point work) it
  returns an `Action` and leaves the machine as it is, and `VM::resume`
  completes the instruction with the host's `Reply`.
- `src/laws.rs`: properties across instructions and calls.

The machine's variables live in vstd's `StringHashMap`, a `HashMap<String, _>`
whose view is a map from names to values.
- `app/main.rs`: the `terb` command, which reads a program file and runs it.

Floating-point values are held as the bits of an `f64`; the machine
decides with facts that the bits state (NaN, zero, order, conversion to
and from integers) and hands float arithmetic and the decimal text of
floats to the host.
