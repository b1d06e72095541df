//! PM2: installed or not, its version, and the operating system the
//! panel runs on.

use vstd::prelude::*;
use crate::probe::ToolReport;
use crate::text::same_text;

verus! {

/// The operating system family.
#[derive(Clone, Copy, Debug, PartialEq, Eq, Structural)]
pub enum OsType {
    Windows,
    MacOS,
    Linux,
    Unknown,
}

/// The family that a target operating system name (as Rust names it:
/// `windows`, `macos`, `linux`, ...) belongs to.
pub open spec fn os_type_spec(target_os: Seq<char>) -> OsType {
    if target_os == "windows"@ {
        OsType::Windows
    } else if target_os == "macos"@ {
        OsType::MacOS
    } else if target_os == "linux"@ {
        OsType::Linux
    } else {
        OsType::Unknown
    }
}

impl OsType {
    /// The family of the target operating system named `target_os`.
    pub fn from_target_os(target_os: &str) -> (r: Self)
        ensures
            r == os_type_spec(target_os@),
    {
        if same_text(target_os, "windows") {
            OsType::Windows
        } else if same_text(target_os, "macos") {
            OsType::MacOS
        } else if same_text(target_os, "linux") {
            OsType::Linux
        } else {
            OsType::Unknown
        }
    }

    /// The name the dashboard shows for the family.
    pub open spec fn label_spec(self) -> Seq<char> {
        match self {
            OsType::Windows => "Windows"@,
            OsType::MacOS => "MacOS"@,
            OsType::Linux => "Linux"@,
            OsType::Unknown => "Unknown"@,
        }
    }

    /// The name the dashboard shows for the family.
    pub fn label(&self) -> (r: &'static str)
        ensures
            r@ == self.label_spec(),
    {
        match self {
            OsType::Windows => "Windows",
            OsType::MacOS => "MacOS",
            OsType::Linux => "Linux",
            OsType::Unknown => "Unknown",
        }
    }
}

/// What the panel knows about PM2.
#[derive(Clone, Debug)]
pub struct PM2Info {
    pub installed: bool,
    pub version: Option<String>,
    pub os_type: OsType,
}

impl PM2Info {
    /// The information from the probe of `pm2` on the given system.
    pub fn from_report(report: ToolReport, os_type: OsType) -> (r: Self)
        ensures
            r.installed == report.installed,
            r.version == report.version,
            r.os_type == os_type,
    {
        PM2Info { installed: report.installed, version: report.version, os_type }
    }
}

} // verus!
