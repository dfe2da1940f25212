pub mod app_snapshot;
pub mod app_state;
pub mod cpu_sample;
pub mod load_tracker;
pub mod managed_unit;
pub mod policy;
pub mod tier;
pub mod unit_state;
pub mod wake_signals;
/// Pure business logic
pub mod window_group;

pub use load_tracker::Load;
pub use load_tracker::LoadTracker;
