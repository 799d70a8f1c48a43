//! Verified core of the OWL Control recorder: which games may be recorded,
//! how a recording folder on disk is classified, how a paused multipart
//! upload is resumed, and the recording / offline state machines that the
//! application's event loop drives.

pub mod app_state;
pub mod clock;
pub mod constants;
pub mod games;
pub mod messages;
pub mod progress;
pub mod recording;
pub mod recording_state;
pub mod recordings;
pub mod sort;
pub mod text;
pub mod updates;
pub mod upload;
