//! A verified parser and command interpreter for Puppeteer-style browser scripts.

pub mod text;
pub mod numbers;
pub mod arguments;
pub mod parser;
pub mod js;
pub mod variables;
pub mod console;
pub mod session;
pub mod launch;
pub mod cli;
pub mod laws;
pub mod session_laws;
