pub mod ast;
pub mod ins;
pub mod parser;
pub mod reg;
pub mod reveng;
pub mod ssir;
pub mod tmp;
pub mod tokenizer;
pub mod transform;
pub mod typechecker;
pub mod util;
pub mod var_table;
