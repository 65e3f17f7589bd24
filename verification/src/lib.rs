//! An interpreter for the 8-bit AVR (XMEGA-class) instruction set.
//!
//! The machine is built from small components: the status register, the
//! register file, the unified I/O and data memory, the program memory and the
//! execution engine that ties them together.
pub mod emulator;
pub mod flags;
pub mod insn;
pub mod iomem;
pub mod machine;
pub mod progmem;
pub mod registers;
pub mod report;
pub mod sreg;
