pub mod args_analysis;
pub mod builtins;
pub mod error;
pub mod lexer;
pub mod model_call;
pub mod parser;
pub mod prompt;
pub mod run;
pub mod spacing;
pub mod text;
