//! Validation of student records submitted for creation: every field rule is checked
//! and every broken rule is reported, in field order.
pub mod date;
pub mod format;
pub mod student;

pub use date::Date;
pub use student::{CreateStudent, Violation};
