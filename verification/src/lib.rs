//! Verified core of a delta-time mod for a PS2-era physics simulation DLL:
//! instruction-byte generation for hooks, the hook dispatch table, integer
//! timer logic of the replaced game routines, and the field-definition file
//! format used by the research UI.

pub mod hook;
pub mod replacements;
pub mod text;
pub mod types;
pub mod ui;
