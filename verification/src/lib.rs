//! A compiler for the SysY language: source text is lexed and parsed into an
//! abstract syntax tree, lowered to Koopa IR text, and Koopa IR is lowered to
//! RISC-V assembly.
#![allow(unused_imports)]

pub mod ast;
pub mod ir;
pub mod lexer;
pub mod render;
pub mod riscv;
pub mod sysy;
pub mod text;
