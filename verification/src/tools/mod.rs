pub mod job;
pub mod output;
