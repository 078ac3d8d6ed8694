//! A line-oriented pseudo-assembly transpiler: source lines are classified
//! against an ordered rule table into operations, and operations are rendered
//! as annotated assembly text.

pub mod dispatch;
pub mod emitter;
pub mod intel_asm_writer;
pub mod normalize;
pub mod operation;
pub mod pattern;
pub mod rules;
pub mod source;
pub mod text;

pub use crate::dispatch::{dispatch, include_target};
pub use crate::emitter::{select_emitter, write_step, Emitter};
pub use crate::intel_asm_writer::IntelAsmWriter;
pub use crate::normalize::normalize;
pub use crate::operation::{
    can_write, parse, parse_with, push_to, write_labelled, Operation, OperationType,
    OutputType, ParseError, Parsed, Rule,
};
pub use crate::rules::rule_table;
pub use crate::source::{scan_file, Diagnostic, Scan, SourceFile};
