use grin_frb_core::config::{check_node_url, NodeConfig, UrlError, DEFAULT_NODE_URL};
use grin_frb_core::wallet::{Wallet, WalletError};

#[test]
fn default_node_url_is_used_first() {
    let c = NodeConfig::new();
    assert_eq!(c.current_node_url(), DEFAULT_NODE_URL);
    assert_eq!(c.generation, 0);
}

#[test]
fn update_node_url_rejects_other_scheme_and_keeps_value() {
    let mut c = NodeConfig::new();
    assert_eq!(c.update_node_url("https://node.example:3413"), Ok(()));
    assert_eq!(c.update_node_url("ftp://node.example"), Err(UrlError::BadScheme));
    assert_eq!(c.current_node_url(), "https://node.example:3413");
    assert_eq!(c.update_node_url("node.example"), Err(UrlError::BadScheme));
    assert_eq!(c.current_node_url(), "https://node.example:3413");
    assert_eq!(c.generation, 1);
}

#[test]
fn update_node_url_rejects_blank() {
    let mut c = NodeConfig::new();
    assert_eq!(c.update_node_url("   "), Err(UrlError::Empty));
    assert_eq!(c.update_node_url(""), Err(UrlError::Empty));
    assert_eq!(c.current_node_url(), DEFAULT_NODE_URL);
}

#[test]
fn update_node_url_trims_whitespace() {
    let mut c = NodeConfig::new();
    assert_eq!(c.update_node_url("  http://127.0.0.1:3413 \n"), Ok(()));
    assert_eq!(c.current_node_url(), "http://127.0.0.1:3413");
}

#[test]
fn same_url_keeps_generation() {
    let mut c = NodeConfig::new();
    assert_eq!(c.update_node_url(DEFAULT_NODE_URL), Ok(()));
    assert_eq!(c.generation, 0);
    assert_eq!(c.update_node_url("http://a"), Ok(()));
    assert_eq!(c.update_node_url("http://a"), Ok(()));
    assert_eq!(c.generation, 1);
}

#[test]
fn check_node_url_cases() {
    assert_eq!(check_node_url("https://x"), Ok(()));
    assert_eq!(check_node_url("http://x"), Ok(()));
    assert_eq!(check_node_url("http:/x"), Err(UrlError::BadScheme));
    assert_eq!(check_node_url("HTTP://x"), Err(UrlError::BadScheme));
    assert_eq!(check_node_url(""), Err(UrlError::Empty));
}

#[test]
fn changing_url_makes_open_wallet_stale() {
    let mut w = Wallet::new();
    assert_eq!(w.active_account(), Err(WalletError::NotInitialized));
    w.init_or_open("secret", "grin1address".to_string()).unwrap();
    assert_eq!(w.active_account().unwrap(), "default");
    assert_eq!(w.update_node_url("https://other.node"), Ok(()));
    assert_eq!(w.active_account(), Err(WalletError::StaleSession));
    w.init_or_open("secret", "grin1address".to_string()).unwrap();
    assert_eq!(w.active_account().unwrap(), "default");
    w.reset();
    assert_eq!(w.slatepack_address(), Err(WalletError::NotInitialized));
}

#[test]
fn failed_url_update_keeps_session_usable() {
    let mut w = Wallet::new();
    w.init_or_open("secret", "addr".to_string()).unwrap();
    assert_eq!(w.update_node_url("grin://node"), Err(UrlError::BadScheme));
    assert_eq!(w.current_node_url(), DEFAULT_NODE_URL);
    assert_eq!(w.slatepack_address().unwrap(), "addr");
}

#[test]
fn empty_passphrase_is_refused() {
    let mut w = Wallet::new();
    assert_eq!(w.init_or_open("", "addr".to_string()), Err(WalletError::EmptyPassphrase));
    assert_eq!(w.balance(100), Err(WalletError::NotInitialized));
}
