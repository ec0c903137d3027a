//! Settings of the program.

use vstd::prelude::*;
use vstd::string::*;

verus! {

/// Where the node is reached.
#[derive(Debug)]
pub struct LotusConfig {
    pub host: String,
    pub token: Option<String>,
}

/// Where the keys are kept.
#[derive(Debug)]
pub struct DatabaseConfig {
    pub path: String,
}

/// How the keys are protected.
#[derive(Debug)]
pub struct WalletConfig {
    pub password: Option<String>,
}

/// All settings.
#[derive(Debug)]
pub struct Config {
    pub lotus: LotusConfig,
    pub database: DatabaseConfig,
    pub wallet: Option<WalletConfig>,
}

/// The password that the settings give; the empty text where they give none.
pub open spec fn password_of(wallet: Option<WalletConfig>) -> Seq<char> {
    match wallet {
        Some(WalletConfig { password: Some(p) }) => p@,
        _ => Seq::empty(),
    }
}

impl Config {
    /// The file that holds the settings.
    pub fn config_path() -> (path: &'static str)
        ensures
            path@ == "config.toml"@,
    {
        "config.toml"
    }

    /// The password for the keys; empty where none is set.
    pub fn get_password(&self) -> (password: String)
        ensures
            password@ == password_of(self.wallet),
    {
        match &self.wallet {
            Some(wallet) => match &wallet.password {
                Some(p) => p.clone(),
                None => String::new(),
            },
            None => String::new(),
        }
    }
}

impl Default for Config {
    /// The public node, a database beside the program, and no password.
    fn default() -> (r: Self)
        ensures
            r.lotus.host@ == "https://api.node.glif.io/rpc/v0"@,
            r.lotus.token is None,
            r.database.path@ == "lotus_sign.db"@,
            r.wallet is None,
    {
        Config {
            lotus: LotusConfig {
                host: String::from_str("https://api.node.glif.io/rpc/v0"),
                token: None,
            },
            database: DatabaseConfig { path: String::from_str("lotus_sign.db") },
            wallet: None,
        }
    }
}

} // verus!
