pub mod enums;
pub mod errors;
pub mod evaluator;
pub mod parser;
pub mod scanner;
pub mod semantics;
pub mod table;
pub mod text;
pub mod theorems;
pub mod value;
