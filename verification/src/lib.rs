//! A fantasy virtual machine: a stack bytecode interpreter together with the
//! binary object model that feeds it.
//!
//! The crate has two halves that share one wire format and one opcode table:
//!
//! * the execution engine (`vm`, `stack`), which loads a binary image and
//!   runs its bytecode against an operand stack, a call stack, a globals
//!   buffer and a heap; and
//! * the binary object model (`out_bin`, `func`, `glob`, `instruction`,
//!   `context`), which assembles instruction lists and globals into a
//!   self-describing image.
//!
//! The byte-level plumbing (`byte_vec`, `byte_vec_reader`, `bin_structs`,
//! `bin_utils`, `image`) is common to both halves, and `memory`,
//! `sys_call` and `video_mode` describe the console the embedder builds
//! around the machine.
//!
//! Floating-point opcodes keep their operands as IEEE-754 bit patterns in
//! 64-bit cells; the few operations that need real float arithmetic are
//! handed to the embedding host as explicit requests (see `vm`).

pub mod bin_structs;
pub mod bin_utils;
pub mod byte_vec;
pub mod byte_vec_reader;
pub mod context;
pub mod float_bits;
pub mod func;
pub mod glob;
pub mod image;
pub mod instruction;
pub mod memory;
pub mod opcode;
pub mod out_bin;
pub mod stack;
pub mod sys_call;
pub mod video_mode;
pub mod vm;
