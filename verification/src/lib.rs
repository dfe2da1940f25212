//! Verified core of app-nap, a daemon that throttles the CPU use of desktop
//! apps by the state of their windows, their media playback, power
//! inhibitors and their own CPU load.
pub mod cgroup;
mod table;
mod text;
pub mod action;
pub mod actions;
pub mod conf_service;
pub mod config;
pub mod daemon;
pub mod dbus;
