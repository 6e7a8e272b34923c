//! The files of a workspace: what is known of them, and when that changes.

pub mod ignore_rules;
pub mod source_entry;
pub mod source_reference;
pub mod watch;
