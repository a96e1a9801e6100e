//! PCBBench: an eval harness for typed-decision-driven PCB design agents.
//!
//! The library holds the verified parts of the harness:
//! - [`task`]: a task, its rubric, and what each criterion checks;
//! - [`runner`]: the outcome of a stage, and the backend pipeline as a state
//!   machine that decides which subprocess runs next and what a run records;
//! - [`scorer`]: the scoring of a run's captured artifacts against a rubric;
//! - [`console`]: the text a run prints;
//! - [`quantity`]: real-valued rubric data, compared exactly on its binary64
//!   bit pattern;
//! - [`text`]: the text operations the report details are built from.
//!
//! Running subprocesses, reading files and decoding JSON numbers happen in
//! the command-line program around it, which hands the library plain values.

pub mod console;
pub mod quantity;
pub mod runner;
pub mod scorer;
pub mod task;
pub mod text;
