//! The interfaces to the system's authentication libraries.

pub mod pam;
pub mod shadow;
