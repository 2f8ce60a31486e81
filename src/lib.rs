//! A personal time tracker: named trackers ("entries"), work sessions
//! ("lines") under them, and the contiguous intervals of work ("duration
//! segments") that make up each session.
//!
//! All timestamps are milliseconds since the Unix epoch, UTC.

pub mod dto;
pub mod error;
pub mod laws;
pub mod model;
pub mod repository;
pub mod service;
pub mod view;

pub use dto::{
    TrackerEntryCreateDto, TrackerEntryDeleteDto, TrackerEntryLineCreateDto,
    TrackerEntryLineDeleteDto, TrackerEntryLineDurationViewDto, TrackerEntryLineUpdateDto,
    TrackerEntryLineViewDto, TrackerEntryUpdateDto, TrackerEntryViewDto,
};
pub use error::{AppError, EntityKind, Violation};
pub use model::{TrackerEntry, TrackerEntryLine, TrackerEntryLineDuration};
pub use repository::TrackerRepository;
pub use service::TrackerService;
pub use view::{TrackerEntryLineUpdateMessage, TrackerEntryUpdateMessage, TrackerView};
