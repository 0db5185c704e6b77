//! The `[user]` section of the configuration.

use vstd::prelude::*;
use vstd::string::StringExecFns;

use crate::errors::ConfigError;
use crate::text::{normalize_username, spec_normalize_username, str_eq};

verus! {

/// Who this node presents itself as during transfers.
pub struct UserConfig {
    pub username: Option<String>,
}

/// Model of the `[user]` section.
pub struct UserConfigView {
    pub username: Option<Seq<char>>,
}

impl View for UserConfig {
    type V = UserConfigView;

    open spec fn view(&self) -> UserConfigView {
        UserConfigView {
            username: match self.username {
                Some(u) => Some(u@),
                None => None,
            },
        }
    }
}

/// What setting a field of `[user]` does: only `username` exists, and it is
/// stored with the `@portal` suffix appended when missing.
pub open spec fn spec_user_update(u: UserConfigView, field: Seq<char>, value: Seq<char>) -> (
    UserConfigView,
    Result<Seq<char>, ConfigError>,
) {
    if field == "username"@ {
        (
            UserConfigView { username: Some(spec_normalize_username(value)) },
            Ok(spec_normalize_username(value)),
        )
    } else {
        (u, Err(ConfigError::UnknownField))
    }
}

/// What reading a field of `[user]` yields.
pub open spec fn spec_user_get(u: UserConfigView, field: Seq<char>) -> Result<
    Seq<char>,
    ConfigError,
> {
    if field == "username"@ {
        match u.username {
            Some(name) => Ok(name),
            None => Err(ConfigError::NotSet),
        }
    } else {
        Err(ConfigError::UnknownField)
    }
}

/// The view of a result that carries a string.
pub open spec fn str_result_view(r: Result<String, ConfigError>) -> Result<Seq<char>, ConfigError> {
    match r {
        Ok(s) => Ok(s@),
        Err(e) => Err(e),
    }
}

impl UserConfig {
    /// Sets a field of `[user]` and reports the stored value.
    pub fn update(&mut self, field: &str, value: &str) -> (r: Result<String, ConfigError>)
        ensures
            (final(self)@, str_result_view(r)) == spec_user_update(old(self)@, field@, value@),
    {
        proof {
            reveal_strlit("username");
        }
        if str_eq(field, "username") {
            let stored = normalize_username(value);
            self.username = Some(stored.clone());
            Ok(stored)
        } else {
            Err(ConfigError::UnknownField)
        }
    }

    /// Reads a field of `[user]`.
    pub fn get_value(&self, field: &str) -> (r: Result<String, ConfigError>)
        ensures
            str_result_view(r) == spec_user_get(self@, field@),
    {
        proof {
            reveal_strlit("username");
        }
        if str_eq(field, "username") {
            match &self.username {
                Some(name) => Ok(name.clone()),
                None => Err(ConfigError::NotSet),
            }
        } else {
            Err(ConfigError::UnknownField)
        }
    }
}

} // verus!
