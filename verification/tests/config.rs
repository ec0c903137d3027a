use lotus_sign::config::{Config, WalletConfig};

#[test]
fn default_settings() {
    let cfg = Config::default();
    assert_eq!(cfg.lotus.host, "https://api.node.glif.io/rpc/v0");
    assert!(cfg.lotus.token.is_none());
    assert_eq!(cfg.database.path, "lotus_sign.db");
    assert!(cfg.wallet.is_none());
    assert_eq!(cfg.get_password(), "");
}

#[test]
fn password_is_taken_from_the_wallet_settings() {
    let mut cfg = Config::default();
    cfg.wallet = Some(WalletConfig { password: None });
    assert_eq!(cfg.get_password(), "");
    cfg.wallet = Some(WalletConfig { password: Some(String::from("hunter2")) });
    assert_eq!(cfg.get_password(), "hunter2");
}

#[test]
fn settings_file_name() {
    assert_eq!(Config::config_path(), "config.toml");
}
