//! The persisted user configuration: username, default port, download
//! directory. Loading and saving the file is the caller's business; the
//! sectioned `section.field` lookup and update rules live here.

pub mod network;
pub mod storage;
pub mod user;

use vstd::prelude::*;
use vstd::string::StrSliceExecFns;
use vstd::string::StringExecFns;
use vstd::utf8::encode_utf8;

use crate::config::network::{spec_network_get, spec_network_update, NetworkConfig,
    NetworkConfigView};
use crate::config::storage::{spec_storage_get, spec_storage_update, StorageConfig,
    StorageConfigView};
use crate::config::user::{spec_user_get, spec_user_update, str_result_view, UserConfig,
    UserConfigView};
use crate::errors::ConfigError;
use crate::handshake::opt_str_view;
use crate::text::{spec_eq_ignore_ascii_case, str_eq_ignore_ascii_case};

verus! {

/// The whole configuration, one struct per file section.
pub struct PortalConfig {
    pub user: UserConfig,
    pub network: NetworkConfig,
    pub storage: StorageConfig,
}

/// Model of the whole configuration.
pub struct PortalConfigView {
    pub user: UserConfigView,
    pub network: NetworkConfigView,
    pub storage: StorageConfigView,
}

impl View for PortalConfig {
    type V = PortalConfigView;

    open spec fn view(&self) -> PortalConfigView {
        PortalConfigView { user: self.user@, network: self.network@, storage: self.storage@ }
    }
}

/// A configuration with no value set anywhere.
pub open spec fn spec_empty_config() -> PortalConfigView {
    PortalConfigView {
        user: UserConfigView { username: None },
        network: NetworkConfigView { default_port: None },
        storage: StorageConfigView { download_dir: None },
    }
}

/// `p` is the one dot splitting the key into `section.field`.
pub open spec fn is_key_split(key: Seq<char>, p: int) -> bool {
    &&& 0 <= p < key.len()
    &&& key[p] == '.'
    &&& forall|j: int| 0 <= j < key.len() && j != p ==> key[j] != '.'
}

/// A key's one dot stands in one place.
pub proof fn lemma_key_split_unique(key: Seq<char>, p: int, q: int)
    requires
        is_key_split(key, p),
        is_key_split(key, q),
    ensures
        p == q,
{
    if p != q {
        assert(key[q] == '.');
    }
}

/// What updating `section.field` does to the whole configuration: the named
/// section changes as its own update says, the others stay; a key without
/// exactly one dot is invalid, an unknown section is refused.
pub open spec fn spec_update_section(c: PortalConfigView, key: Seq<char>, value: Seq<char>) -> (
    PortalConfigView,
    Result<Seq<char>, ConfigError>,
) {
    if exists|p: int| is_key_split(key, p) {
        let p = choose|p: int| is_key_split(key, p);
        let section = key.take(p);
        let field = key.skip(p + 1);
        if spec_eq_ignore_ascii_case(section, "user"@) {
            let outcome = spec_user_update(c.user, field, value);
            (PortalConfigView { user: outcome.0, ..c }, outcome.1)
        } else if spec_eq_ignore_ascii_case(section, "network"@) {
            let outcome = spec_network_update(c.network, field, value);
            (PortalConfigView { network: outcome.0, ..c }, outcome.1)
        } else if spec_eq_ignore_ascii_case(section, "storage"@) {
            let outcome = spec_storage_update(c.storage, field, value);
            (PortalConfigView { storage: outcome.0, ..c }, outcome.1)
        } else {
            (c, Err(ConfigError::UnknownSection))
        }
    } else {
        (c, Err(ConfigError::InvalidKeyFormat))
    }
}

/// What reading `section.field` yields.
pub open spec fn spec_get_key_value(c: PortalConfigView, key: Seq<char>) -> Result<
    Seq<char>,
    ConfigError,
> {
    if exists|p: int| is_key_split(key, p) {
        let p = choose|p: int| is_key_split(key, p);
        let section = key.take(p);
        let field = key.skip(p + 1);
        if spec_eq_ignore_ascii_case(section, "user"@) {
            spec_user_get(c.user, field)
        } else if spec_eq_ignore_ascii_case(section, "network"@) {
            spec_network_get(c.network, field)
        } else if spec_eq_ignore_ascii_case(section, "storage"@) {
            spec_storage_get(c.storage, field)
        } else {
            Err(ConfigError::UnknownSection)
        }
    } else {
        Err(ConfigError::InvalidKeyFormat)
    }
}

/// Finds the one dot of a `section.field` key, or nothing when the key has
/// no dot or more than one.
fn find_key_split(key: &str) -> (r: Option<usize>)
    ensures
        match r {
            Some(p) => is_key_split(key@, p as int),
            None => forall|q: int| !is_key_split(key@, q),
        },
{
    let n = key.unicode_len();
    let mut first: Option<usize> = None;
    let mut second: Option<usize> = None;
    let mut i: usize = 0;
    while i < n
        invariant
            0 <= i <= n,
            n == key@.len(),
            match first {
                None => second is None && (forall|j: int| 0 <= j < i ==> key@[j] != '.'),
                Some(p) => {
                    &&& p < i
                    &&& key@[p as int] == '.'
                    &&& (forall|j: int| 0 <= j < p ==> key@[j] != '.')
                    &&& (match second {
                        None => forall|j: int| p < j < i ==> key@[j] != '.',
                        Some(q) => p < q < i && key@[q as int] == '.',
                    })
                },
            },
        decreases n - i,
    {
        let c = key.get_char(i);
        if c == '.' {
            if first.is_none() {
                first = Some(i);
            } else if second.is_none() {
                second = Some(i);
            }
        }
        i += 1;
    }
    match (first, second) {
        (Some(p), None) => {
            proof {
                assert(is_key_split(key@, p as int));
            }
            Some(p)
        },
        (Some(p), Some(q)) => {
            proof {
                assert forall|r: int| !is_key_split(key@, r) by {
                    if is_key_split(key@, r) {
                        if r != p as int {
                            assert(key@[p as int] == '.');
                        } else {
                            assert(key@[q as int] == '.');
                        }
                    }
                }
            }
            None
        },
        (None, _) => {
            proof {
                assert forall|r: int| !is_key_split(key@, r) by {
                    if is_key_split(key@, r) {
                        assert(key@[r] == '.');
                    }
                }
            }
            None
        },
    }
}

impl PortalConfig {
    /// A configuration holding only the field the first `set` writes: every
    /// field empty, then one update applied.
    pub fn new_empty_for_set(key: &str, value: &str) -> (r: Result<PortalConfig, ConfigError>)
        ensures
            ({
                let outcome = spec_update_section(spec_empty_config(), key@, value@);
                match r {
                    Ok(cfg) => cfg@ == outcome.0 && outcome.1 is Ok,
                    Err(e) => outcome.1 == Err::<Seq<char>, ConfigError>(e),
                }
            }),
    {
        let mut cfg = PortalConfig {
            user: UserConfig { username: None },
            network: NetworkConfig { default_port: None },
            storage: StorageConfig { download_dir: None },
        };
        match cfg.update_section(key, value) {
            Ok(_) => Ok(cfg),
            Err(e) => Err(e),
        }
    }

    /// Updates one `section.field` of the configuration and reports the
    /// stored value.
    pub fn update_section(&mut self, key: &str, value: &str) -> (r: Result<String, ConfigError>)
        ensures
            (final(self)@, str_result_view(r)) == spec_update_section(old(self)@, key@, value@),
    {
        proof {
            reveal_strlit("user");
            reveal_strlit("network");
            reveal_strlit("storage");
        }
        let n = key.unicode_len();
        let p = match find_key_split(key) {
            Some(p) => p,
            None => {
                return Err(ConfigError::InvalidKeyFormat);
            },
        };
        proof {
            lemma_key_split_unique(key@, p as int, choose|q: int| is_key_split(key@, q));
        }
        let section = key.substring_char(0, p);
        let field = key.substring_char(p + 1, n);
        proof {
            assert(section@ == key@.take(p as int));
            assert(field@ == key@.skip(p as int + 1));
        }
        if str_eq_ignore_ascii_case(section, "user") {
            self.user.update(field, value)
        } else if str_eq_ignore_ascii_case(section, "network") {
            self.network.update(field, value)
        } else if str_eq_ignore_ascii_case(section, "storage") {
            self.storage.update(field, value)
        } else {
            Err(ConfigError::UnknownSection)
        }
    }

    /// Reads one `section.field` of the configuration.
    pub fn get_key_value(&self, key: &str) -> (r: Result<String, ConfigError>)
        ensures
            str_result_view(r) == spec_get_key_value(self@, key@),
    {
        proof {
            reveal_strlit("user");
            reveal_strlit("network");
            reveal_strlit("storage");
        }
        let n = key.unicode_len();
        let p = match find_key_split(key) {
            Some(p) => p,
            None => {
                return Err(ConfigError::InvalidKeyFormat);
            },
        };
        proof {
            lemma_key_split_unique(key@, p as int, choose|q: int| is_key_split(key@, q));
        }
        let section = key.substring_char(0, p);
        let field = key.substring_char(p + 1, n);
        proof {
            assert(section@ == key@.take(p as int));
            assert(field@ == key@.skip(p as int + 1));
        }
        if str_eq_ignore_ascii_case(section, "user") {
            self.user.get_value(field)
        } else if str_eq_ignore_ascii_case(section, "network") {
            self.network.get_value(field)
        } else if str_eq_ignore_ascii_case(section, "storage") {
            self.storage.get_value(field)
        } else {
            Err(ConfigError::UnknownSection)
        }
    }
}

/// Relies on rand's `random`: a draw from the thread-local generator.
/// Nothing is promised of the value.
#[verifier::external_body]
fn random_u16() -> u16 {
    rand::random()
}

/// The username the first-time setup offers: `puser_` and a random number.
pub fn suggested_username() -> (r: String)
    ensures
        r@.len() >= 7,
        r@.take(6) == "puser_"@,
        exists|n: u16|
            r@ == "puser_"@ + vstd::utf8::decode_utf8(
                crate::text::spec_decimal_digits(n as int),
            ),
{
    proof {
        reveal_strlit("puser_");
    }
    let n = random_u16();
    let digits = crate::text::format_u64(n as u64);
    let mut s = String::from_str("puser_");
    s.append(digits.as_str());
    proof {
        crate::text::lemma_decimal_digits_are_digits(n as int);
        if digits@.len() == 0 {
            assert(encode_utf8(digits@) =~= Seq::<u8>::empty());
        }
        assert(s@.take(6) =~= "puser_"@);
    }
    s
}

/// The port a receive session listens on: the caller's, else the configured
/// default, else nothing — the caller must then fail or ask.
pub fn resolve_port(cli: Option<u16>, configured: Option<u16>) -> (r: Option<u16>)
    ensures
        r == (if cli is Some {
            cli
        } else {
            configured
        }),
{
    match cli {
        Some(p) => Some(p),
        None => configured,
    }
}

/// The directory received items are saved into: the caller's path, else the
/// configured download directory, else nothing — the caller must then ask.
pub fn resolve_dir(cli: Option<String>, configured: Option<String>) -> (r: Option<String>)
    ensures
        opt_str_view(r) == (if cli is Some {
            opt_str_view(cli)
        } else {
            opt_str_view(configured)
        }),
{
    match cli {
        Some(d) => Some(d),
        None => configured,
    }
}

} // verus!
