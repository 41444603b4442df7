//! A WebAssembly module parser and runtime support library.
pub mod types;
pub mod functypes;
pub mod error;
pub mod reader;
pub mod ir;
pub mod stack;
pub mod module;
pub mod context;
pub mod decode;
pub mod instructions;
pub mod ops;
pub mod table_instr;
pub mod variable_instr;
pub mod control_instr;
pub mod opcodes;
pub mod function_builder;
pub mod basic_blocks;
pub mod function_parser;
pub mod module_decode;
pub mod sections;
pub mod module_parser;
pub mod loader;
pub mod config;
pub mod tables;
pub mod globals;
pub mod wasi;
pub mod instance;
