//! A 32-bit fixed-width instruction set: its instruction table, an
//! assembler core that encodes parsed sources into flat images, and an
//! emulator that executes them with exceptions and two privilege levels.
pub mod alu;
pub mod assembler;
pub mod bits;
pub mod machine;
pub mod schema;
pub mod vm;
