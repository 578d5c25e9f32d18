//! Configuration. The file is not read yet: loading gives the defaults.

use vstd::prelude::*;

use crate::paths::FsPath;

verus! {

#[verifier::external_type_specification]
#[verifier::external_body]
pub struct ExTomlValue(toml::Value);

/// `toml::Value::Table(toml::map::Map::new())`: an empty TOML table.
#[verifier::external_body]
fn empty_table() -> toml::Value {
    toml::Value::Table(toml::map::Map::new())
}

/// The configuration, as the raw TOML document.
#[derive(Debug)]
pub struct Config {
    pub raw: toml::Value,
}

impl Config {
    /// The configuration found at `path`: for now the defaults, whatever the
    /// file holds.
    pub fn load(_path: &FsPath) -> Config {
        Config { raw: empty_table() }
    }

    /// The default configuration: an empty table.
    pub fn defaults() -> Config {
        Config { raw: empty_table() }
    }
}

impl Default for Config {
    /// The default configuration: an empty table.
    fn default() -> Self {
        Config::defaults()
    }
}

} // verus!
