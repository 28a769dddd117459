//! A test harness core: discovery of test-case directories by a marker
//! file, regex-based selection, strict interpretation of external command
//! output, and a working-directory-scoped build plan. All I/O — walking the
//! filesystem, spawning processes, switching directories — happens outside
//! this library, which decides and proves what is done with its results.

pub mod cases;
pub mod command;
pub mod config;
pub mod errors;
pub mod order;
pub mod plan;
pub mod selector;
pub mod text;
