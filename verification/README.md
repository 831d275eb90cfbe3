# MIC-1 simulator

A simulator of the MIC-1 microarchitecture whose library is proved with Verus.

- `src/alu.rs`: the ALU (`AND`, `OR`, `NOT B`, `ADD`, input enables,
  inversion, increment, the `SLL8`/`SRA1` shifter and the `n`/`z` flags), its
  8-bit control word and its text form.
- `src/cpu.rs`, `src/etapa_1/`: the CPU of the ALU exercises and its first
  stage (program counter and instruction register, `src/instruction_register.rs`).
- `src/register.rs`, `src/memory.rs`, `src/microinstruction.rs`, `src/mic1.rs`:
  the data path registers, the 16-word memory, micro-instructions (format,
  execution, C-bus) and the data path stepped one micro-instruction at a time.
- `src/ijvm.rs`: IJVM instructions (`BIPUSH`, `DUP`, `ILOAD`), their
  micro-programs and the run of a program.
- `src/loader.rs`, `src/logger.rs`: programs read from text and the text of a
  run.
- `src/text.rs`: the decimal and binary renderings and the line and word
  scanning that the above use.
- `app/`: the program that reads the files and writes the log.
