pub mod register;
pub mod instruction;
pub mod decode;
pub mod disasm;
pub mod system;
pub mod keymap;
pub mod execute;
pub mod laws;
pub mod run;
pub mod render;
pub mod debugger;
pub mod token;
pub mod node;
pub mod lexer;
pub mod parser;
pub mod compile;
