//! The guests that run scripts, and what passes into and out of them.

pub mod guest_memory;
pub mod guest_script;
pub mod interpreter;
