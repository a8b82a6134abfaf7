//! Verified core of the openagent plugin collection.
pub mod calendar;
pub mod digest;
pub mod envsync;
pub mod events;
pub mod hexcode;
pub mod json;
pub mod openviking;
pub mod renew;
pub mod session_flow;
pub mod settings;
pub mod telemetry;
pub mod text;
pub mod tokenhub;
