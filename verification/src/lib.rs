pub mod cli;
pub mod commit;
pub mod git;
pub mod llm;
pub mod output;
pub mod text;
