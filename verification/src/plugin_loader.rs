//! The manifest a plugin package ships with.

use vstd::prelude::*;

verus! {

/// A plugin's manifest: identity, kind, API version, entry library and the
/// plugins it depends on.
#[derive(Debug, Clone)]
pub struct PluginManifest {
    pub id: String,
    pub name: String,
    pub version: String,
    pub author: String,
    pub description: String,
    pub plugin_type: String,
    pub api_version: String,
    pub entry: String,
    pub dependencies: Vec<String>,
}

} // verus!
