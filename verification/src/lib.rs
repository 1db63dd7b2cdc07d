use vstd::prelude::*;

pub mod text;
pub mod seqs;
pub mod update;
pub mod application;
pub mod controllers;
pub mod presentation;
pub mod diagnostics;
pub mod tools;
pub mod printing;
