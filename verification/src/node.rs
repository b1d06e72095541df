//! Node.js and npm: installed or not, and their versions.

use vstd::prelude::*;
use crate::probe::ToolReport;

verus! {

/// What the panel knows about Node.js and npm.
#[derive(Clone, Debug)]
pub struct NodeInfo {
    pub installed: bool,
    pub version: Option<String>,
    pub npm_installed: bool,
    pub npm_version: Option<String>,
}

impl NodeInfo {
    /// The information from the probes of `node` and of `npm`.
    pub fn from_reports(node: ToolReport, npm: ToolReport) -> (r: Self)
        ensures
            r.installed == node.installed,
            r.version == node.version,
            r.npm_installed == npm.installed,
            r.npm_version == npm.version,
    {
        NodeInfo {
            installed: node.installed,
            version: node.version,
            npm_installed: npm.installed,
            npm_version: npm.version,
        }
    }
}

} // verus!
