//! What a plugin tells about itself, and the bundled example plugin.

use vstd::prelude::*;

verus! {

/// A plugin's self-description: id, name, version, description, author.
#[derive(Debug, Clone)]
pub struct PluginDescriptor {
    pub id: String,
    pub name: String,
    pub version: String,
    pub description: String,
    pub author: String,
}

/// The example of a dynamically loaded plugin: always initializes and is
/// always healthy.
pub struct ExamplePlugin {}

impl ExamplePlugin {
    pub fn new() -> (p: ExamplePlugin) {
        ExamplePlugin {}
    }

    pub fn metadata(&self) -> (d: PluginDescriptor)
        ensures
            d.id@ == "example-plugin"@,
            d.name@ == "Example Plugin"@,
            d.version@ == "1.0.0"@,
            d.description@ == "A dynamically loaded example plugin"@,
            d.author@ == "Cluster Runtime"@,
    {
        PluginDescriptor {
            id: String::from_str("example-plugin"),
            name: String::from_str("Example Plugin"),
            version: String::from_str("1.0.0"),
            description: String::from_str("A dynamically loaded example plugin"),
            author: String::from_str("Cluster Runtime"),
        }
    }

    pub fn initialize(&mut self) -> (ok: bool)
        ensures
            ok,
    {
        true
    }

    pub fn shutdown(&mut self) {
    }

    pub fn health(&self) -> (ok: bool)
        ensures
            ok,
    {
        true
    }
}

} // verus!
