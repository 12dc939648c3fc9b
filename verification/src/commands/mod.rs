//! One module per `picky` subcommand: what it checks, which calls it plans
//! and what it reports.

pub mod add;
pub mod doctor;
pub mod gc;
pub mod init;
pub mod refresh;
pub mod remove;
pub mod sparse;
pub mod status;
pub mod update;
