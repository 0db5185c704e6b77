//! The `[network]` section of the configuration.

use vstd::prelude::*;
use vstd::utf8::encode_utf8;

use crate::config::user::str_result_view;
use crate::errors::ConfigError;
use crate::text::{format_u64, is_u16_decimal, parse_u16_decimal, spec_decimal_digits,
    spec_decimal_value, str_eq};

verus! {

/// The TCP port a receive session listens on when none is given.
pub struct NetworkConfig {
    pub default_port: Option<u16>,
}

/// Model of the `[network]` section.
pub struct NetworkConfigView {
    pub default_port: Option<u16>,
}

impl View for NetworkConfig {
    type V = NetworkConfigView;

    open spec fn view(&self) -> NetworkConfigView {
        NetworkConfigView { default_port: self.default_port }
    }
}

/// What setting a field of `[network]` does: only `default_port` exists, and
/// only a decimal number a port can hold is accepted; the stored value is
/// reported back in decimal.
pub open spec fn spec_network_update(n: NetworkConfigView, field: Seq<char>, value: Seq<char>) -> (
    NetworkConfigView,
    Result<Seq<char>, ConfigError>,
) {
    if field == "default_port"@ {
        if is_u16_decimal(encode_utf8(value)) {
            let port = spec_decimal_value(encode_utf8(value)) as u16;
            (
                NetworkConfigView { default_port: Some(port) },
                Ok(vstd::utf8::decode_utf8(spec_decimal_digits(port as int))),
            )
        } else {
            (n, Err(ConfigError::InvalidPort))
        }
    } else {
        (n, Err(ConfigError::UnknownField))
    }
}

/// What reading a field of `[network]` yields.
pub open spec fn spec_network_get(n: NetworkConfigView, field: Seq<char>) -> Result<
    Seq<char>,
    ConfigError,
> {
    if field == "default_port"@ {
        match n.default_port {
            Some(port) => Ok(vstd::utf8::decode_utf8(spec_decimal_digits(port as int))),
            None => Err(ConfigError::NotSet),
        }
    } else {
        Err(ConfigError::UnknownField)
    }
}

impl NetworkConfig {
    /// Sets a field of `[network]` and reports the stored value.
    pub fn update(&mut self, field: &str, value: &str) -> (r: Result<String, ConfigError>)
        ensures
            (final(self)@, str_result_view(r)) == spec_network_update(old(self)@, field@, value@),
    {
        proof {
            reveal_strlit("default_port");
        }
        if str_eq(field, "default_port") {
            match parse_u16_decimal(value) {
                Some(port) => {
                    self.default_port = Some(port);
                    Ok(format_u64(port as u64))
                },
                None => Err(ConfigError::InvalidPort),
            }
        } else {
            Err(ConfigError::UnknownField)
        }
    }

    /// Reads a field of `[network]`.
    pub fn get_value(&self, field: &str) -> (r: Result<String, ConfigError>)
        ensures
            str_result_view(r) == spec_network_get(self@, field@),
    {
        proof {
            reveal_strlit("default_port");
        }
        if str_eq(field, "default_port") {
            match self.default_port {
                Some(port) => Ok(format_u64(port as u64)),
                None => Err(ConfigError::NotSet),
            }
        } else {
            Err(ConfigError::UnknownField)
        }
    }
}

} // verus!
