pub mod ast;
pub mod tokenizer;
