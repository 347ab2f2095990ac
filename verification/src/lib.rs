//! Front end of a binding-descriptor compiler: it reads annotated native
//! declarations and compiles them into descriptors of what a scripting
//! runtime gets to see of them.

pub mod ast;
pub mod attrs;
pub mod casing;
pub mod diagnostic;
pub mod doc;
pub mod enumeration;
pub mod function;
pub mod grammar;
pub mod js_values;
pub mod literal;
pub mod method_block;
pub mod parser;
pub mod record;
pub mod registry;
pub mod span;
pub mod syntax;
pub mod text;
pub mod token;
