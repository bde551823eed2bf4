//! Monitor brightness control core: DDC/CI wire format, MCCS capability
//! strings, EDID blocks, VCP feature codes and the decision logic that the
//! platform backends and front ends drive.

pub mod autostart;
pub mod caps;
pub mod commands;
pub mod cli;
pub mod ddc;
pub mod edid;
pub mod error;
pub mod fetch;
pub mod foreground;
pub mod lifecycle;
pub mod menu;
pub mod monitor;
pub mod number;
pub mod platform;
pub mod profiles;
pub mod scheduler;
pub mod text;
pub mod tray;
pub mod vcp;

pub use caps::Capabilities;
pub use error::{Error, Result};
pub use vcp::{ColorPreset, VcpFeature, VcpValue};
pub use monitor::{MonitorId, MonitorInfo, MonitorKind};
