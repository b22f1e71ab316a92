//! An emulator for a 16-bit word-addressed processor, and a two-pass
//! assembler that turns its assembly language into the binary words the
//! processor executes.
//!
//! The processor is `Dcpu`; `Dcpu::tick` runs one instruction. What a
//! tick does is written down once, as a function on `DcpuState`, and the
//! modules `val_type`, `op` and `instruction` hold its parts: how an
//! operand resolves, what an opcode does, how a word decodes. The module
//! `laws` proves what holds of every tick.
//!
//! `assembler::assemble` turns source text into a program, or into the
//! list of everything that is wrong with the source.
//! `assembler::assembled` says which of the two, for every text, and
//! `assembler::laws` proves what holds of every assembly.
//!
//! The modules `keyboard` and `lem` hold the two conventions by which
//! devices share memory with a program: the ring of keys and the cells of
//! the screen.
pub mod assembler;
pub mod cpu;
pub mod instruction;
pub mod keyboard;
pub mod laws;
pub mod lem;
pub mod literal;
pub mod op;
pub mod register;
pub mod symbols;
pub mod text;
pub mod val_type;
pub mod word;

pub use cpu::Dcpu;
pub use cpu::DcpuState;
