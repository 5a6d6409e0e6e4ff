//! Tracking of recurring goals ("habits") by calendar day: the goal variants
//! with their sparse day-indexed histories, the navigation cursor, and the
//! application state that holds a collection of goals and applies commands.
pub mod app;
pub mod calendar;
pub mod command;
pub mod habit;
pub mod history;
pub mod seqs;
pub mod text;
