//! The configuration model: the logger settings and the custom template
//! table.  Reading and writing configuration files is the hosting
//! application's concern; the library holds the values and their defaults.

use crate::strmap::StrMap;
use vstd::prelude::*;
use vstd::string::*;

verus! {

/// The logger's settings.
pub struct LoggerConfig {
    pub level: String,
    pub color: bool,
    pub timestamp: bool,
}

/// The custom message templates.
pub struct TemplatesConfig {
    pub custom_templates: StrMap,
}

/// The whole configuration.
pub struct Config {
    pub logger: LoggerConfig,
    pub templates: TemplatesConfig,
}

impl Default for Config {
    /// The default configuration: informational logging with colour and
    /// timestamps, and no custom templates.
    fn default() -> (r: Config)
        ensures
            r.logger.level@ == "info"@,
            r.logger.color,
            r.logger.timestamp,
            r.templates.custom_templates@.len() == 0,
            r.templates.custom_templates.wf(),
    {
        Config {
            logger: LoggerConfig {
                level: String::from_str("info"),
                color: true,
                timestamp: true,
            },
            templates: TemplatesConfig { custom_templates: StrMap::new() },
        }
    }
}

} // verus!
