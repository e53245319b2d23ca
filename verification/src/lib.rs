//! The verified core of pdfix, a tool that thickens hairline strokes in PDF
//! files: which pages and strokes are rewritten, the page-rule grammar, the
//! names of the files written beside the input, the staged in-place
//! conversion, the reproducible colour generator, the tallies and the
//! measurement-free lines of the conversion log, and the decisions of the desktop
//! shell.
pub mod batch;
pub mod counters;
pub mod naming;
pub mod pages;
pub mod path;
pub mod report;
pub mod rng;
pub mod rules;
pub mod settings;
pub mod shell;
pub mod staging;
pub mod stroke;
pub mod text;
pub mod units;
