//! The `[storage]` section of the configuration.

use vstd::prelude::*;
use vstd::string::StringExecFns;

use crate::config::user::str_result_view;
use crate::errors::ConfigError;
use crate::text::str_eq;

verus! {

/// Where received files are saved when no directory is given.
pub struct StorageConfig {
    pub download_dir: Option<String>,
}

/// Model of the `[storage]` section.
pub struct StorageConfigView {
    pub download_dir: Option<Seq<char>>,
}

impl View for StorageConfig {
    type V = StorageConfigView;

    open spec fn view(&self) -> StorageConfigView {
        StorageConfigView {
            download_dir: match self.download_dir {
                Some(d) => Some(d@),
                None => None,
            },
        }
    }
}

/// What setting a field of `[storage]` does: only `download_dir` exists, and
/// the path is stored as given.
pub open spec fn spec_storage_update(s: StorageConfigView, field: Seq<char>, value: Seq<char>) -> (
    StorageConfigView,
    Result<Seq<char>, ConfigError>,
) {
    if field == "download_dir"@ {
        (StorageConfigView { download_dir: Some(value) }, Ok(value))
    } else {
        (s, Err(ConfigError::UnknownField))
    }
}

/// What reading a field of `[storage]` yields.
pub open spec fn spec_storage_get(s: StorageConfigView, field: Seq<char>) -> Result<
    Seq<char>,
    ConfigError,
> {
    if field == "download_dir"@ {
        match s.download_dir {
            Some(d) => Ok(d),
            None => Err(ConfigError::NotSet),
        }
    } else {
        Err(ConfigError::UnknownField)
    }
}

impl StorageConfig {
    /// Sets a field of `[storage]` and reports the stored value.
    pub fn update(&mut self, field: &str, value: &str) -> (r: Result<String, ConfigError>)
        ensures
            (final(self)@, str_result_view(r)) == spec_storage_update(old(self)@, field@, value@),
    {
        proof {
            reveal_strlit("download_dir");
        }
        if str_eq(field, "download_dir") {
            let stored = String::from_str(value);
            self.download_dir = Some(stored.clone());
            Ok(stored)
        } else {
            Err(ConfigError::UnknownField)
        }
    }

    /// Reads a field of `[storage]`.
    pub fn get_value(&self, field: &str) -> (r: Result<String, ConfigError>)
        ensures
            str_result_view(r) == spec_storage_get(self@, field@),
    {
        proof {
            reveal_strlit("download_dir");
        }
        if str_eq(field, "download_dir") {
            match &self.download_dir {
                Some(d) => Ok(d.clone()),
                None => Err(ConfigError::NotSet),
            }
        } else {
            Err(ConfigError::UnknownField)
        }
    }
}

} // verus!
