//! Meeting presentation library: the assignment clock, the meeting week
//! calendar, programme templates, publication parsing rules and the
//! per-profile settings that the desktop shell drives.

pub mod text;
pub mod error;
pub mod clock;
pub mod calendar;
pub mod week;
pub mod template;
pub mod jwpub;
pub mod media;
pub mod hymnal;
pub mod catalog;
pub mod platform;
pub mod schedule;
pub mod content;
pub mod output;
pub mod jobs;
pub mod profile;
pub mod week_service;
pub mod explorer;
pub mod commands;
pub mod hymnal_service;
