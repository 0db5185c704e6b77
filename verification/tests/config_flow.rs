use hiverra_portal::config::network::NetworkConfig;
use hiverra_portal::config::storage::StorageConfig;
use hiverra_portal::config::user::UserConfig;
use hiverra_portal::config::{resolve_dir, resolve_port, suggested_username, PortalConfig};
use hiverra_portal::errors::ConfigError;
use hiverra_portal::text::{format_u64, normalize_username, parse_u16_decimal, str_eq,
    str_eq_ignore_ascii_case};

fn empty_config() -> PortalConfig {
    PortalConfig {
        user: UserConfig { username: None },
        network: NetworkConfig { default_port: None },
        storage: StorageConfig { download_dir: None },
    }
}

#[test]
fn username_is_stored_with_the_suffix() {
    let mut cfg = empty_config();
    let stored = cfg.update_section("user.username", "alice").expect("update must succeed");
    assert_eq!(stored, "alice@portal");
    assert_eq!(cfg.get_key_value("user.username").unwrap(), "alice@portal");

    let stored = cfg.update_section("user.username", "bob@portal").unwrap();
    assert_eq!(stored, "bob@portal");
}

#[test]
fn section_lookup_ignores_ascii_case() {
    let mut cfg = empty_config();
    cfg.update_section("USER.username", "carol").expect("section match is case-insensitive");
    assert_eq!(cfg.get_key_value("User.username").unwrap(), "carol@portal");
    // fields are matched exactly
    assert_eq!(
        cfg.update_section("user.Username", "carol"),
        Err(ConfigError::UnknownField)
    );
}

#[test]
fn port_accepts_exactly_decimal_u16() {
    let mut cfg = empty_config();
    assert_eq!(cfg.update_section("network.default_port", "7878").unwrap(), "7878");
    assert_eq!(cfg.network.default_port, Some(7878));
    assert_eq!(cfg.get_key_value("network.default_port").unwrap(), "7878");

    // leading zeros are read as the same number and reported back plainly
    assert_eq!(cfg.update_section("network.default_port", "07878").unwrap(), "7878");

    assert_eq!(
        cfg.update_section("network.default_port", "65536"),
        Err(ConfigError::InvalidPort)
    );
    assert_eq!(cfg.update_section("network.default_port", "abc"), Err(ConfigError::InvalidPort));
    assert_eq!(cfg.update_section("network.default_port", ""), Err(ConfigError::InvalidPort));
    assert_eq!(cfg.update_section("network.default_port", "-1"), Err(ConfigError::InvalidPort));
    // a failed update leaves the stored value alone
    assert_eq!(cfg.network.default_port, Some(7878));
}

#[test]
fn download_dir_is_stored_verbatim() {
    let mut cfg = empty_config();
    let stored = cfg.update_section("storage.download_dir", "/home/dana/Downloads").unwrap();
    assert_eq!(stored, "/home/dana/Downloads");
    assert_eq!(cfg.get_key_value("storage.download_dir").unwrap(), "/home/dana/Downloads");
}

#[test]
fn bad_keys_are_refused() {
    let mut cfg = empty_config();
    assert_eq!(cfg.update_section("nodot", "x"), Err(ConfigError::InvalidKeyFormat));
    assert_eq!(cfg.update_section("a.b.c", "x"), Err(ConfigError::InvalidKeyFormat));
    assert_eq!(cfg.update_section("", "x"), Err(ConfigError::InvalidKeyFormat));
    assert_eq!(cfg.update_section("mail.username", "x"), Err(ConfigError::UnknownSection));
    assert_eq!(cfg.update_section("user.password", "x"), Err(ConfigError::UnknownField));
    assert_eq!(cfg.get_key_value("nodot"), Err(ConfigError::InvalidKeyFormat));
    assert_eq!(cfg.get_key_value("mail.username"), Err(ConfigError::UnknownSection));
    assert_eq!(cfg.get_key_value("network.port"), Err(ConfigError::UnknownField));
}

#[test]
fn unset_fields_read_as_not_set() {
    let cfg = empty_config();
    assert_eq!(cfg.get_key_value("user.username"), Err(ConfigError::NotSet));
    assert_eq!(cfg.get_key_value("network.default_port"), Err(ConfigError::NotSet));
    assert_eq!(cfg.get_key_value("storage.download_dir"), Err(ConfigError::NotSet));
}

#[test]
fn first_set_builds_a_config_around_the_key() {
    let cfg = PortalConfig::new_empty_for_set("user.username", "erin").expect("must succeed");
    assert_eq!(cfg.user.username.as_deref(), Some("erin@portal"));
    assert!(cfg.network.default_port.is_none());
    assert!(cfg.storage.download_dir.is_none());

    assert!(matches!(
        PortalConfig::new_empty_for_set("user.nope", "x"),
        Err(ConfigError::UnknownField)
    ));
}

#[test]
fn port_resolution_prefers_the_caller() {
    assert_eq!(resolve_port(Some(9000), Some(7878)), Some(9000));
    assert_eq!(resolve_port(None, Some(7878)), Some(7878));
    assert_eq!(resolve_port(None, None), None);
}

#[test]
fn dir_resolution_prefers_the_caller() {
    let cli = Some("/tmp/here".to_string());
    let cfg = Some("/home/dana/Downloads".to_string());
    assert_eq!(resolve_dir(cli.clone(), cfg.clone()), cli);
    assert_eq!(resolve_dir(None, cfg.clone()), cfg);
    assert_eq!(resolve_dir(None, None), None);
}

#[test]
fn suggested_usernames_carry_the_prefix() {
    let name = suggested_username();
    assert!(name.starts_with("puser_"));
    assert!(name.len() > 6);
    assert!(name[6..].chars().all(|c| c.is_ascii_digit()));
}

#[test]
fn decimal_text_round_trips() {
    for x in [0u16, 1, 9, 10, 7878, 65535] {
        let text = format_u64(x as u64);
        assert_eq!(parse_u16_decimal(&text), Some(x));
    }
    assert_eq!(format_u64(0), "0");
    assert_eq!(format_u64(65535), "65535");
    assert_eq!(parse_u16_decimal("0007878"), Some(7878));
    assert_eq!(parse_u16_decimal("65536"), None);
    assert_eq!(parse_u16_decimal("+1"), None);
    assert_eq!(parse_u16_decimal(""), None);
}

#[test]
fn username_normalization() {
    assert_eq!(normalize_username("kai"), "kai@portal");
    assert_eq!(normalize_username("kai@portal"), "kai@portal");
    assert_eq!(normalize_username(""), "@portal");
}

#[test]
fn string_helpers() {
    assert!(str_eq("same", "same"));
    assert!(!str_eq("same", "sane"));
    assert!(!str_eq("short", "shorter"));
    assert!(str_eq_ignore_ascii_case("NetWork", "network"));
    assert!(!str_eq_ignore_ascii_case("net", "network"));
    assert!(!str_eq_ignore_ascii_case("netw0rk", "network"));
}

#[test]
fn errors_describe_themselves() {
    assert!(!ConfigError::InvalidKeyFormat.describe().is_empty());
    assert!(!ConfigError::UnknownSection.describe().is_empty());
    assert!(!ConfigError::UnknownField.describe().is_empty());
    assert!(!ConfigError::InvalidPort.describe().is_empty());
    assert!(!ConfigError::NotSet.describe().is_empty());
}
