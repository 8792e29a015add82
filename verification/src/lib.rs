//! The task manager's library: the task and note records, the rules that
//! decide which tasks a listing or a reminder round selects, the calendar
//! arithmetic of the command line, the text that the tools print, the steps
//! of the database operations, and an in-memory model of the database's
//! tables on which the laws relating those operations are proved.

pub mod models;
pub mod text;
pub mod calendar;
pub mod queries;
pub mod error;
pub mod tables;
pub mod laws;
pub mod present;
pub mod messages;
pub mod reminders;
pub mod repository;
pub mod config;
