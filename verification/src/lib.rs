//! Verified core of a class-management desktop application: the rules that
//! decide what the storage layer is asked to do, how records are validated,
//! how rankings and reports are computed, and how backups are checked.

pub mod affair;
pub mod attendance;
pub mod backup;
pub mod cohort;
pub mod exam;
pub mod export;
pub mod homework;
pub mod membership;
pub mod profile;
pub mod query;
pub mod ranking;
pub mod restore;
pub mod settings;
pub mod student;
pub mod subject;
pub mod tables;
pub mod text;
