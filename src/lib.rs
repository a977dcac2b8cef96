// Sets the acoustic-management level of storage devices: the configured levels,
// the run mode, the privilege steps, and the drive-tool runs for each device.
pub mod config;
pub mod devices;
pub mod dispatch;
pub mod levels;
pub mod privilege;
pub mod text;
