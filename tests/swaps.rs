use grin_frb_core::settings::{swap_id_from_file_name, SlateDirectory, SwapSettings};
use grin_frb_core::swap::{parse_currency, Currency, SwapError, SwapPhase, SwapSlate, SwapStore};
use grin_frb_core::text::parse_u64;

fn proposed(store: &mut SwapStore, id: u64) -> SwapSlate {
    store.init_swap("btc", " Grin ", 100, 2000, 60, id, vec![1, 2]).unwrap()
}

#[test]
fn currency_codes() {
    assert_eq!(parse_currency(" btc "), Ok(Currency::Btc));
    assert_eq!(parse_currency("Bitcoin"), Ok(Currency::Btc));
    assert_eq!(parse_currency("grin"), Ok(Currency::Grin));
    assert_eq!(parse_currency("eth"), Err(SwapError::UnsupportedCurrency));
    assert_eq!(parse_currency(""), Err(SwapError::UnsupportedCurrency));
}

#[test]
fn init_files_public_half_in_init_phase() {
    let mut s = SwapStore::new();
    let slate = proposed(&mut s, 7);
    assert_eq!(slate.phase, SwapPhase::Init);
    assert_eq!(slate.from_currency, Currency::Btc);
    assert_eq!(slate.to_currency, Currency::Grin);
    assert_eq!(s.read_swap(7), Ok(slate));
    assert_eq!(s.init_swap("btc", "grin", 1, 1, 1, 7, vec![]), Err(SwapError::DuplicateSwap));
    assert_eq!(s.init_swap("doge", "grin", 1, 1, 1, 8, vec![]), Err(SwapError::UnsupportedCurrency));
    assert_eq!(s.read_swap(8), Err(SwapError::UnknownSwap));
}

#[test]
fn execute_before_lock_fails() {
    let mut s = SwapStore::new();
    proposed(&mut s, 1);
    assert_eq!(s.execute_swap(1, "c", "c"), Err(SwapError::WrongPhase));
    assert_eq!(s.read_swap(1).unwrap().phase, SwapPhase::Init);
}

#[test]
fn cancel_after_execute_fails() {
    let mut s = SwapStore::new();
    proposed(&mut s, 1);
    assert_eq!(s.lock_swap(1, "c", "c").unwrap().phase, SwapPhase::Locked);
    assert_eq!(s.execute_swap(1, "c", "c").unwrap().phase, SwapPhase::Executed);
    assert_eq!(s.cancel_swap(1), Err(SwapError::AlreadyExecuted));
    assert_eq!(s.execute_swap(1, "c", "c"), Err(SwapError::AlreadyExecuted));
    assert_eq!(s.read_swap(1).unwrap().phase, SwapPhase::Executed);
}

#[test]
fn checksum_gate() {
    let mut s = SwapStore::new();
    proposed(&mut s, 1);
    assert_eq!(s.lock_swap(1, "abc", "abd"), Err(SwapError::ChecksumMismatch));
    assert_eq!(s.read_swap(1).unwrap().phase, SwapPhase::Init);
    s.lock_swap(1, "abc", "abc").unwrap();
    assert_eq!(s.lock_swap(1, "abc", "abc"), Err(SwapError::WrongPhase));
    assert_eq!(s.execute_swap(1, "abc", "xyz"), Err(SwapError::ChecksumMismatch));
    assert_eq!(s.lock_swap(9, "a", "a"), Err(SwapError::UnknownSwap));
}

#[test]
fn cancel_from_init_or_locked() {
    let mut s = SwapStore::new();
    proposed(&mut s, 1);
    proposed(&mut s, 2);
    s.lock_swap(2, "c", "c").unwrap();
    assert_eq!(s.cancel_swap(1).unwrap().phase, SwapPhase::Cancelled);
    assert_eq!(s.cancel_swap(2).unwrap().phase, SwapPhase::Cancelled);
    assert_eq!(s.cancel_swap(2), Err(SwapError::AlreadyCancelled));
    assert_eq!(s.execute_swap(2, "c", "c"), Err(SwapError::AlreadyCancelled));
}

#[test]
fn import_accept_and_delete() {
    let mut s = SwapStore::new();
    let theirs = SwapSlate {
        id: 5,
        from_currency: Currency::Grin,
        to_currency: Currency::Btc,
        from_amount: 10,
        to_amount: 1,
        timeout_minutes: 30,
        phase: SwapPhase::Init,
    };
    assert_eq!(s.import_public_slate(6, theirs), Err(SwapError::IdMismatch));
    assert_eq!(s.import_public_slate(5, theirs), Ok(theirs));
    assert_eq!(s.delete_swap(5), Ok(1));
    s.import_public_slate(5, theirs).unwrap();
    assert_eq!(s.accept_swap(5, vec![9]), Ok(theirs));
    assert_eq!(s.accept_swap(5, vec![9]), Err(SwapError::AlreadyAccepted));
    assert_eq!(s.accept_swap(4, vec![9]), Err(SwapError::UnknownSwap));
    assert_eq!(s.list_swaps(), vec![theirs]);
    assert_eq!(s.delete_swap(5), Ok(2));
    assert_eq!(s.delete_swap(5), Err(SwapError::UnknownSwap));
    assert!(s.list_swaps().is_empty());
}

#[test]
fn swap_file_names() {
    assert_eq!(swap_id_from_file_name("42.pub.json"), Some(42));
    assert_eq!(swap_id_from_file_name("42.prv.json"), None);
    assert_eq!(swap_id_from_file_name(".pub.json"), None);
    assert_eq!(swap_id_from_file_name("x1.pub.json"), None);
    assert_eq!(swap_id_from_file_name("18446744073709551615.pub.json"), Some(u64::MAX));
    assert_eq!(swap_id_from_file_name("18446744073709551616.pub.json"), None);
}

#[test]
fn decimal_parsing() {
    assert_eq!(parse_u64("0"), Some(0));
    assert_eq!(parse_u64("+7"), Some(7));
    assert_eq!(parse_u64("+"), None);
    assert_eq!(parse_u64(""), None);
    assert_eq!(parse_u64("-1"), None);
    assert_eq!(parse_u64("12a"), None);
    assert_eq!(parse_u64("00012"), Some(12));
}

#[test]
fn slate_directory_precedence() {
    let mut cfg = SwapSettings::new();
    let env = Some("/env/swaps".to_string());
    let data = Some("/data/wallet".to_string());
    match cfg.resolve_slate_directory(env.clone(), data.clone(), "slates".to_string(), false) {
        SlateDirectory::Environment(p) => assert_eq!(p, "/env/swaps"),
        other => panic!("unexpected {:?}", other),
    }
    match cfg.resolve_slate_directory(None, data.clone(), "slates".to_string(), false) {
        SlateDirectory::WalletData(p) => assert_eq!(p, "/data/wallet"),
        other => panic!("unexpected {:?}", other),
    }
    match cfg.resolve_slate_directory(None, None, "/abs".to_string(), true) {
        SlateDirectory::Configured(p) => assert_eq!(p, "/abs"),
        other => panic!("unexpected {:?}", other),
    }
    match cfg.resolve_slate_directory(None, None, "slates".to_string(), false) {
        SlateDirectory::BesideSettings(p) => assert_eq!(p, "slates"),
        other => panic!("unexpected {:?}", other),
    }
    cfg.set_slate_directory("/override");
    assert_eq!(cfg.generation, 1);
    match cfg.resolve_slate_directory(env, data, "slates".to_string(), false) {
        SlateDirectory::Override(p) => assert_eq!(p, "/override"),
        other => panic!("unexpected {:?}", other),
    }
}

#[test]
fn peer_endpoint_override() {
    let mut cfg = SwapSettings::new();
    let p = cfg.resolve_peer_endpoint("127.0.0.1".to_string(), "3000".to_string());
    assert_eq!(p.host, "127.0.0.1");
    assert_eq!(p.port, "3000");
    cfg.set_peer_endpoint("peer.example", "4000");
    assert_eq!(cfg.generation, 1);
    let p = cfg.resolve_peer_endpoint("127.0.0.1".to_string(), "3000".to_string());
    assert_eq!(p.host, "peer.example");
    assert_eq!(p.port, "4000");
}
