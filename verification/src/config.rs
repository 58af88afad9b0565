//! Which format a configuration file is read in, decided by the file's
//! extension.

use vstd::prelude::*;
use crate::text::{joined, same_text};

verus! {

/// The formats in which a node configuration can be written.
#[derive(Clone, Copy, Debug, PartialEq, Eq, Structural)]
pub enum FileType {
    Yaml,
    Json,
}

/// What a path has for an extension.
#[derive(Debug)]
pub enum Extension {
    /// The file name has none.
    Missing,
    /// It has one that is not valid Unicode.
    NotUnicode,
    /// It has this one, given without the dot.
    Text(String),
}

/// Why a configuration file is not read.
#[derive(Debug)]
pub enum ConfigError {
    MissingExtension,
    InvalidExtension,
    /// The extension, which is none of `yaml`, `yml` and `json`.
    UnsupportedExtension(String),
}

/// The format that an extension stands for.
pub open spec fn format_of(extension: Seq<char>) -> Option<FileType> {
    if extension == "yaml"@ || extension == "yml"@ {
        Some(FileType::Yaml)
    } else if extension == "json"@ {
        Some(FileType::Json)
    } else {
        None
    }
}

impl FileType {
    /// The format for a file with this extension.
    pub fn try_from(extension: &Extension) -> (r: Result<FileType, ConfigError>)
        ensures
            match r {
                Ok(t) => extension matches Extension::Text(e) && format_of(e@) == Some(t),
                Err(ConfigError::MissingExtension) => extension is Missing,
                Err(ConfigError::InvalidExtension) => extension is NotUnicode,
                Err(ConfigError::UnsupportedExtension(s)) => extension matches Extension::Text(e)
                    && format_of(e@) is None && s@ == e@,
            },
    {
        match extension {
            Extension::Missing => Err(ConfigError::MissingExtension),
            Extension::NotUnicode => Err(ConfigError::InvalidExtension),
            Extension::Text(e) => {
                if same_text(e.as_str(), "yaml") || same_text(e.as_str(), "yml") {
                    Ok(FileType::Yaml)
                } else if same_text(e.as_str(), "json") {
                    Ok(FileType::Json)
                } else {
                    Err(ConfigError::UnsupportedExtension(e.clone()))
                }
            },
        }
    }

    /// The name of the format, as messages give it.
    pub fn name(&self) -> (r: &'static str)
        ensures
            r@ == match self {
                FileType::Yaml => "YAML"@,
                FileType::Json => "JSON"@,
            },
    {
        match self {
            FileType::Yaml => "YAML",
            FileType::Json => "JSON",
        }
    }

    /// The message for a file at `path` whose contents are not of this
    /// format.
    pub fn invalid_content_message(&self, path: &str) -> (r: String)
        ensures
            r@ == path@ + " was not valid "@ + match self {
                FileType::Yaml => "YAML"@,
                FileType::Json => "JSON"@,
            },
    {
        let head = joined(path, " was not valid ");
        joined(head.as_str(), self.name())
    }
}

impl ConfigError {
    /// The error in words.
    pub fn message(&self) -> (r: String)
        ensures
            r@ == match self {
                ConfigError::MissingExtension => "Config file must have an extension"@,
                ConfigError::InvalidExtension => "Invalid extension"@,
                ConfigError::UnsupportedExtension(e) =>
                    "File extension must be yaml, yml, or json, not "@ + e@,
            },
    {
        match self {
            ConfigError::MissingExtension => "Config file must have an extension".to_owned(),
            ConfigError::InvalidExtension => "Invalid extension".to_owned(),
            ConfigError::UnsupportedExtension(e) => joined(
                "File extension must be yaml, yml, or json, not ",
                e.as_str(),
            ),
        }
    }
}

/// Decides how the configuration file with this extension is to be read:
/// as YAML for `yaml` and `yml`, as JSON for `json`, and not at all for
/// any other extension or none. Opening and parsing the file is the
/// caller's part.
pub fn read_configuration_from_file(extension: &Extension) -> (r: Result<FileType, ConfigError>)
    ensures
        match r {
            Ok(t) => extension matches Extension::Text(e) && format_of(e@) == Some(t),
            Err(ConfigError::MissingExtension) => extension is Missing,
            Err(ConfigError::InvalidExtension) => extension is NotUnicode,
            Err(ConfigError::UnsupportedExtension(s)) => extension matches Extension::Text(e)
                && format_of(e@) is None && s@ == e@,
        },
{
    FileType::try_from(extension)
}

} // verus!
