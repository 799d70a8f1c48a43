//! Fixed parameters of recording and uploading. Durations are in whole seconds.

use vstd::prelude::*;

verus! {

pub const FPS: u32 = 60;
pub const RECORDING_WIDTH: u32 = 1280;
pub const RECORDING_HEIGHT: u32 = 720;

/// Minimum free space required to record (in megabytes)
pub const MIN_FREE_SPACE_MB: u64 = 512;

/// Minimum footage length
pub const MIN_FOOTAGE_SECS: u64 = 20;
/// Maximum footage length
pub const MAX_FOOTAGE_SECS: u64 = 600;
/// Maximum idle duration before stopping recording
pub const MAX_IDLE_DURATION_SECS: u64 = 30;
/// Maximum time to wait for OBS to hook into the application before stopping recording
pub const HOOK_TIMEOUT_SECS: u64 = 5;

/// Whether or not to use testing constants (should always be false in production)
pub const PLAY_TIME_TESTING: bool = false;
/// Threshold before showing overlay
pub const PLAY_TIME_THRESHOLD_SECS: u64 = 7200;
/// Display granularity - how coarsely to round time values for display
pub const PLAY_TIME_DISPLAY_GRANULARITY_SECS: u64 = 1800;
/// Break threshold - reset after this much idle time
pub const PLAY_TIME_BREAK_THRESHOLD_SECS: u64 = 14400;
/// Rolling window - reset after this much time since last break
pub const PLAY_TIME_ROLLING_WINDOW_SECS: u64 = 28800;
/// Save interval for play time state
pub const PLAY_TIME_SAVE_INTERVAL_SECS: u64 = 300;

/// GitHub organization
pub const GH_ORG: &'static str = "Overworldai";
/// GitHub repository
pub const GH_REPO: &'static str = "owl-control";

/// Reasons that a recording is invalid
pub const INVALID_FILE: &'static str = ".invalid";
/// Reasons that a server invalidated a recording
pub const SERVER_INVALID_FILE: &'static str = ".server_invalid";
/// Indicates the file was uploaded; contains information about the upload
pub const UPLOADED_FILE: &'static str = ".uploaded";
/// Stores upload progress state for pause/resume functionality
pub const UPLOAD_PROGRESS_FILE: &'static str = ".upload-progress";
/// The video recording file
pub const VIDEO_FILE: &'static str = "recording.mp4";
/// The input recording file
pub const INPUTS_FILE: &'static str = "inputs.csv";
/// The metadata file
pub const METADATA_FILE: &'static str = "metadata.json";
/// The config file, stored in persistent data directory
pub const CONFIG_FILE: &'static str = "config.json";
/// The play time state file, stored in persistent data directory
pub const PLAY_TIME_STATE_FILE: &'static str = "play_time.json";

/// Nanoseconds in a second.
pub const NANOS_PER_SEC: u128 = 1_000_000_000;

/// A number of minutes, in seconds.
pub fn duration_from_mins(minutes: u64) -> (r: u64)
    requires
        minutes * 60 <= u64::MAX,
    ensures
        r == minutes * 60,
{
    minutes * 60
}

/// A number of hours, in seconds.
pub fn duration_from_hours(hours: u64) -> (r: u64)
    requires
        hours * 3600 <= u64::MAX,
    ensures
        r == hours * 3600,
{
    duration_from_mins(hours * 60)
}

} // verus!
