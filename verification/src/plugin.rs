//! What a plugin says of itself, and the settings it is started with.
use vstd::prelude::*;
use std::collections::HashMap;

verus! {

/// A plugin's name, version, author and description.
#[derive(Clone, Debug)]
pub struct PluginMetadata {
    pub name: String,
    pub version: String,
    pub author: String,
    pub description: String,
}

/// Whether a plugin is enabled, and its settings by name.
#[derive(Clone, Debug)]
pub struct PluginConfig {
    pub enabled: bool,
    pub settings: HashMap<String, String>,
}

impl Default for PluginConfig {
    /// Enabled, without settings.
    fn default() -> (c: PluginConfig)
        ensures
            c.enabled,
            c.settings@ == Map::<String, String>::empty(),
    {
        PluginConfig { enabled: true, settings: HashMap::new() }
    }
}

} // verus!
