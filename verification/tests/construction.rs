use chain_state::chains::default_chains;
use chain_state::config::{power_of_ten, ChainConfig};
use chain_state::state::{InitError, State};
use chain_state::text::{has_no_capital, str_eq};

fn client() -> reqwest::Client {
    State::new().expect("the registry of the compiled-in chains").client()
}

fn chain(name: &str, gecko: Option<&str>, decimals_pow: u64) -> ChainConfig {
    ChainConfig {
        name: name.to_string(),
        gecko: gecko.map(|key| key.to_string()),
        base_prefix: name.to_string(),
        valoper_prefix: format!("{name}valoper"),
        cons_prefix: format!("{name}valcons"),
        main_denom: format!("u{name}"),
        rpc_url: format!("https://rpc.example/{name}"),
        jsonrpc_url: None,
        rest_url: format!("https://rest.example/{name}"),
        wss_url: format!("wss://rpc.example/{name}/websocket"),
        sdk_version: 45,
        decimals_pow,
    }
}

#[test]
fn new_builds_the_compiled_in_registry() {
    let state = State::new().expect("the registry of the compiled-in chains");
    let table = default_chains();
    assert_eq!(state.len(), table.len());
    for (built, listed) in state.chains().iter().zip(table.iter()) {
        assert_eq!(built.name, listed.name);
        assert_eq!(built.gecko, listed.gecko);
        assert_eq!(built.wss_url, listed.wss_url);
        assert!(built.is_valid());
    }
}

#[test]
fn assemble_builds_the_registry_around_a_client() {
    let state = State::assemble(Ok(client())).expect("the compiled-in chains are valid");
    assert_eq!(state.len(), 5);
    assert!(state.get("secret").is_ok());
}

#[test]
fn assemble_hands_on_the_failure_to_build_a_client() {
    let failure = reqwest::Client::builder()
        .user_agent("two\nlines")
        .build()
        .expect_err("a line break is no part of a header value");
    assert!(failure.is_builder());
    let built = State::assemble(Err(failure));
    match built {
        Err(InitError::ClientUnavailable(e)) => assert!(e.is_builder()),
        _ => panic!("the registry was built without a client"),
    }
}

#[test]
fn with_chains_accepts_a_valid_table() {
    let table = vec![chain("alpha", Some("alpha"), 1_000_000), chain("beta", None, 1)];
    let state = State::with_chains(table, client()).expect("a valid table");
    assert_eq!(state.len(), 2);
    assert_eq!(state.get("beta").expect("beta").index, 1);
    assert_eq!(state.price_request(), vec!["alpha"]);
    assert_eq!(state.update_data().len(), 2);
}

#[test]
fn with_chains_accepts_an_empty_table() {
    let state = State::with_chains(Vec::new(), client()).expect("an empty table");
    assert_eq!(state.len(), 0);
    assert!(state.get("axelar").is_err());
    assert!(state.update_data().is_complete());
    assert!(state.price_request().is_empty());
}

#[test]
fn with_chains_rejects_a_capital_letter() {
    let table = vec![chain("alpha", None, 100), chain("Beta", None, 100)];
    let built = State::with_chains(table, client());
    assert!(matches!(built, Err(InitError::InvalidChain(1))));
}

#[test]
fn with_chains_rejects_a_scale_that_is_no_power_of_ten() {
    let table = vec![chain("alpha", None, 250), chain("beta", None, 100)];
    let built = State::with_chains(table, client());
    assert!(matches!(built, Err(InitError::InvalidChain(0))));
    let table = vec![chain("alpha", None, 0)];
    assert!(matches!(State::with_chains(table, client()), Err(InitError::InvalidChain(0))));
}

#[test]
fn with_chains_rejects_a_repeated_identifier() {
    let table =
        vec![chain("alpha", None, 100), chain("beta", None, 100), chain("alpha", Some("a"), 10)];
    let built = State::with_chains(table, client());
    assert!(matches!(built, Err(InitError::DuplicateChain(2))));
}

#[test]
fn with_chains_reports_an_invalid_chain_before_a_repeated_one() {
    let table = vec![chain("alpha", None, 100), chain("alpha", None, 100), chain("GAMMA", None, 1)];
    let built = State::with_chains(table, client());
    assert!(matches!(built, Err(InitError::InvalidChain(2))));
}

#[test]
fn powers_of_ten() {
    assert!(power_of_ten(1));
    assert!(power_of_ten(10));
    assert!(power_of_ten(100));
    assert!(power_of_ten(100_000_000_000_000));
    assert!(power_of_ten(10_000_000_000_000_000_000));
    assert!(!power_of_ten(0));
    assert!(!power_of_ten(2));
    assert!(!power_of_ten(20));
    assert!(!power_of_ten(101));
    assert!(!power_of_ten(1_000_000_000_000_001));
    assert!(!power_of_ten(u64::MAX));
}

#[test]
fn identifiers_are_lowercase() {
    assert!(has_no_capital("axelar"));
    assert!(has_no_capital("cosmoshub-4"));
    assert!(has_no_capital(""));
    assert!(!has_no_capital("Axelar"));
    assert!(!has_no_capital("osmosiS"));
    assert!(!has_no_capital("OSMOSIS"));
    assert!(has_no_capital("été"));
}

#[test]
fn strings_are_compared_by_their_characters() {
    assert!(str_eq("", ""));
    assert!(str_eq("osmosis", "osmosis"));
    assert!(!str_eq("osmosis", "OSMOSIS"));
    assert!(!str_eq("osmosis", "osmosi"));
    assert!(!str_eq("osmosis", "osmosiss"));
    assert!(!str_eq("axelar", "secret"));
    assert!(str_eq("été", "été"));
    assert!(!str_eq("été", "ete"));
}

#[test]
fn a_configuration_is_cloned_field_by_field() {
    let table = default_chains();
    let copy = table[1].clone();
    assert_eq!(copy.name, "evmos");
    assert_eq!(copy.gecko.as_deref(), Some("evmos"));
    assert_eq!(copy.jsonrpc_url, table[1].jsonrpc_url);
    assert_eq!(copy.decimals_pow, table[1].decimals_pow);
    assert_eq!(copy.sdk_version, 45);
    assert!(copy.tracks_price());
    assert!(!table[2].tracks_price());
}

#[test]
fn the_registry_hands_out_the_client_it_was_built_around() {
    let marked = reqwest::Client::builder()
        .user_agent("registry-probe/7")
        .build()
        .expect("a client with a user agent");
    let plain = client();
    let table = vec![chain("alpha", Some("alpha"), 100), chain("beta", None, 10)];
    let state = State::with_chains(table, marked.clone()).expect("a valid table");
    let first = format!("{:?}", state.client());
    let second = format!("{:?}", state.client());
    assert!(first.contains("registry-probe/7"));
    assert_eq!(first, format!("{marked:?}"));
    assert_eq!(second, first);
    assert_ne!(first, format!("{plain:?}"));
}

#[test]
fn assemble_keeps_the_client_it_is_given() {
    let marked = reqwest::Client::builder()
        .user_agent("registry-probe/8")
        .build()
        .expect("a client with a user agent");
    let state = State::assemble(Ok(marked.clone())).expect("the compiled-in chains are valid");
    assert_eq!(format!("{:?}", state.client()), format!("{marked:?}"));
    assert!(format!("{:?}", state.client()).contains("registry-probe/8"));
}
