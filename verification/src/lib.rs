//! A terminal calendar viewer for Google Calendar: the state machine that
//! drives the interface, the layout of events on the screen, and the time
//! arithmetic that both rest on.

pub mod constants;

pub mod time;
pub mod sort;
pub mod clock;
pub mod event;
pub mod view;
pub mod app;
pub mod text;
pub mod config;
pub mod calendar;
pub mod screen;
pub mod laws;
