//! Public data about monitors: what kind a display is, its stable
//! identifier, and its static information.

use vstd::prelude::*;

use crate::caps::Capabilities;

verus! {

/// What kind of display this is.
#[derive(Debug, Clone, Copy, PartialEq, Eq, Hash)]
pub enum MonitorKind {
    /// Built-in laptop / iMac / all-in-one panel — uses backlight APIs.
    Internal,
    /// External display — uses DDC/CI over I²C.
    External,
}

pub open spec fn kind_text(k: MonitorKind) -> Seq<char> {
    match k {
        MonitorKind::Internal => "internal"@,
        MonitorKind::External => "external"@,
    }
}

impl MonitorKind {
    /// Lower-case name of the kind (`internal` / `external`).
    pub fn to_string(&self) -> (s: String)
        ensures
            s@ == kind_text(*self),
    {
        match self {
            Self::Internal => "internal".to_owned(),
            Self::External => "external".to_owned(),
        }
    }
}

/// Stable, plaintext identifier for a monitor. The format is platform-defined
/// but guaranteed to remain stable across reboots for the same physical
/// display+port combination so the UI can persist per-monitor settings.
#[derive(Debug, Clone, PartialEq, Eq, Hash)]
pub struct MonitorId(pub String);

impl MonitorId {
    pub fn new(s: String) -> (id: Self)
        ensures
            id.0@ == s@,
    {
        Self(s)
    }

    pub fn as_str(&self) -> (s: &str)
        ensures
            s@ == self.0@,
    {
        self.0.as_str()
    }

    /// The identifier's text.
    pub fn to_string(&self) -> (s: String)
        ensures
            s@ == self.0@,
    {
        self.0.clone()
    }
}

/// Static information about a monitor.
#[derive(Debug, Clone)]
pub struct MonitorInfo {
    pub id: MonitorId,
    pub name: String,
    pub kind: MonitorKind,
    /// Manufacturer ID (3-letter PNP code, if known).
    pub manufacturer: Option<String>,
    /// Manufacturer-supplied product name (from EDID), if known.
    pub model: Option<String>,
    /// Decoded capability string contents (only populated after a refresh).
    pub capabilities: Option<Capabilities>,
}

} // verus!
