//! yodawg: the decision and text-building core of a friendly QEMU front end.
pub mod text;
pub mod vm;
pub mod control;
pub mod json;
pub mod laws;
pub mod qemu;
pub mod qmp;
pub mod runtime;
pub mod session;
