//! Grading engine for programming assignments: source preparation, test
//! program assembly, the decision rules of a test run, the result matrix of a
//! grading run and the grades and feedback derived from it.
pub mod status;
pub mod text;
pub mod harness;
pub mod executor;
pub mod grading;
pub mod schedule;
pub mod source;
pub mod duration;
pub mod cases;
