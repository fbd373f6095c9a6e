//! Attendance register: a roster of members keyed by badge number, one
//! attendance record per member and day, and the queries over both.

pub mod backup;
pub mod clock;
pub mod commands;
pub mod db;
pub mod ident;
pub mod laws;
pub mod records;
pub mod rules;
pub mod store;
