//! Borrowed event-time scheduling and authoritative event-boundary clipping.
pub mod error;
pub mod report;
pub mod schedule;

pub use error::ScheduleError;
pub use report::EventClip;
pub use schedule::EventSchedule;
