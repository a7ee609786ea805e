//! Application configuration.

use vstd::prelude::*;

verus! {

#[derive(Debug, Clone)]
pub struct AppConfig {
    pub theme: String,
    pub accent_color: String,
    pub language: String,
    pub auto_start: bool,
    pub telemetry_enabled: bool,
}

/// The configuration a fresh installation starts with.
pub open spec fn is_default_config(c: AppConfig) -> bool {
    &&& c.theme@ == "dark"@
    &&& c.accent_color@ == "#6366f1"@
    &&& c.language@ == "en"@
    &&& !c.auto_start
    &&& !c.telemetry_enabled
}

impl Default for AppConfig {
    fn default() -> (c: AppConfig)
        ensures
            is_default_config(c),
    {
        AppConfig {
            theme: String::from_str("dark"),
            accent_color: String::from_str("#6366f1"),
            language: String::from_str("en"),
            auto_start: false,
            telemetry_enabled: false,
        }
    }
}

pub struct ConfigService {
    config: AppConfig,
}

impl ConfigService {
    pub closed spec fn config(&self) -> AppConfig {
        self.config
    }

    pub fn new(config: AppConfig) -> (s: ConfigService)
        ensures
            s.config() == config,
    {
        ConfigService { config }
    }

    pub fn get(&self) -> (c: &AppConfig)
        ensures
            *c == self.config(),
    {
        &self.config
    }
}

impl Default for ConfigService {
    fn default() -> (s: ConfigService)
        ensures
            is_default_config(s.config()),
    {
        ConfigService::new(AppConfig::default())
    }
}

} // verus!
