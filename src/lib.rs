// A 16-bit capability machine: its instruction format and execution engine, the binary
// container that carries programs, an assembler back end that encodes into that format, and
// a small expression-language compiler that targets it.

// Assembly source to instruction words.
pub mod assembler;
// Little-endian byte reading and writing.
pub mod bytes;
// Capabilities: bounded, permissioned windows onto memory.
pub mod cap;
// Expression-language source to instruction words.
pub mod compiler;
// Architectural state and the fetch-advance-execute step.
pub mod cpu;
// What each opcode does.
pub mod exec;
// The host's side of syscalls.
pub mod host;
// Instruction words: encoding and decoding.
pub mod isa;
// The program container: writing and loading.
pub mod loader;
// Capability-checked memory.
pub mod mem;
// Integer text and string comparison.
pub mod text;
// Synchronous faults.
pub mod trap;
