//! A CHIP-8 / SUPER-CHIP virtual machine: memory, registers, timers, a
//! pixel framebuffer and a 16-key input device, with the instruction set
//! executed one step at a time.
pub mod emulator;
pub mod entropy;
pub mod hardware;
pub mod ops;
pub mod vm;
