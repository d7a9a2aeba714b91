//! A Runner that judges nothing: it forwards work to an external judge and
//! reports the judge's verdict back.

pub mod json;
pub mod text;
pub mod integration;
pub mod uva;
pub mod lease;
pub mod schedule;
pub mod pending;
pub mod report;
pub mod config;
pub mod run;
