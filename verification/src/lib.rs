//! Problem-workspace generator for Baekjoon Online Judge problems.

pub mod cli;
pub mod crawler;
pub mod generator;
pub mod template;
pub mod text;

