//! Verified core of the Lucio Surf League leaderboard: run rankings,
//! query construction, account rules, notification texts and page markup.

pub mod text;
pub mod time;
pub mod types;
pub mod leaderboard;
pub mod query;
pub mod auth;
pub mod notify;
pub mod catalog;
pub mod markup;
pub mod view;
pub mod fragment;
pub mod admin;
pub mod forms;
pub mod home;
