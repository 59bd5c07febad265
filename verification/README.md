# lc3_vm

A virtual machine for the LC-3 educational computer, written in Verus.

- `src/memory.rs`: the 64K-word memory and its memory-mapped keyboard registers.
- `src/cpu.rs`: instruction decoding, the processor, and a specification of every
  instruction as a function on the machine state (`CpuState`).
- `src/laws.rs`: properties that span several operations (stores and loads, calls and
  returns, the keyboard, the condition register).
- `src/lib.rs`: exit codes, the command line, and loading program images.
- `app/main.rs`: the terminal front end. It reads image files, runs the fetch/execute
  loop, and does all keyboard and display input/output: whenever the library answers
  `KeyNeeded`, it reads one byte and repeats the request with it.

Address arithmetic (PC-relative and base-relative addresses, the program counter, string
scans) wraps modulo 2^16.
