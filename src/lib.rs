//! Lists the entries of one directory from the raw records that the kernel's
//! `getdents64` call writes into a caller-sized buffer.
//!
//! The library parses those records with bounds-checked offset arithmetic and
//! decides, fill by fill, how the enumeration goes on. Opening the directory
//! and issuing the system calls are left to the program that drives it.

pub mod enumeration;
pub mod laws;
pub mod record;
pub mod text;

pub use text::{extract_name, name_or_empty};
pub use record::{is_pseudo_name, parse_records, HEADER_LEN};
pub use enumeration::{exit_code_of, Enumeration, ExitCode, FillEvent, ListError, Step, DEFAULT_BUF_SIZE};
