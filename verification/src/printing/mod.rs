pub mod controller;
pub mod job;
pub mod run;
