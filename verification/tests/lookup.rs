use chain_state::state::State;

fn registry() -> State {
    State::new().expect("the registry of the compiled-in chains")
}

#[test]
fn registry_holds_the_five_chains_in_order() {
    let state = registry();
    let names: Vec<&str> = state.chains().iter().map(|c| c.name.as_str()).collect();
    assert_eq!(names, vec!["axelar", "evmos", "kyve", "osmosis", "secret"]);
    assert_eq!(state.len(), 5);
}

#[test]
fn get_finds_osmosis() {
    let state = registry();
    let chain = state.get("osmosis").expect("osmosis is registered");
    assert_eq!(chain.index, 3);
    assert_eq!(chain.config.name, "osmosis");
    assert_eq!(chain.config.gecko.as_deref(), Some("osmosis"));
    assert_eq!(chain.config.base_prefix, "osmo");
    assert_eq!(chain.config.valoper_prefix, "osmovaloper");
    assert_eq!(chain.config.cons_prefix, "osmovalcons");
    assert_eq!(chain.config.main_denom, "uosmo");
    assert_eq!(chain.config.rpc_url, "https://rpc.cosmos.directory/osmosis");
    assert_eq!(chain.config.jsonrpc_url, None);
    assert_eq!(chain.config.rest_url, "https://rest.cosmos.directory/osmosis");
    assert_eq!(chain.config.wss_url, "wss://rpc.osmosis.interbloc.org/websocket");
    assert_eq!(chain.config.sdk_version, 45);
    assert_eq!(chain.config.decimals_pow, 100);
}

#[test]
fn get_returns_each_chain_under_its_own_name() {
    let state = registry();
    let names = ["axelar", "evmos", "kyve", "osmosis", "secret"];
    for (index, name) in names.iter().enumerate() {
        let chain = state.get(name).expect("a registered chain");
        assert_eq!(chain.index, index);
        assert_eq!(chain.config.name, *name);
        assert_eq!(chain.config.name, state.chains()[index].name);
        assert_eq!(chain.config.rpc_url, state.chains()[index].rpc_url);
    }
}

#[test]
fn get_is_case_sensitive() {
    let state = registry();
    let err = state.get("OSMOSIS").expect_err("no chain is named in capitals");
    assert_eq!(err.name, "OSMOSIS");
    assert_eq!(err.message(), "OSMOSIS is not a supported chain.");
}

#[test]
fn get_rejects_an_unknown_chain_with_its_message() {
    let state = registry();
    let err = state.get("cosmos").expect_err("cosmos is not registered");
    assert_eq!(err.name, "cosmos");
    assert_eq!(err.message(), "cosmos is not a supported chain.");
}

#[test]
fn get_rejects_the_empty_name_and_near_misses() {
    let state = registry();
    assert_eq!(state.get("").expect_err("empty").message(), " is not a supported chain.");
    assert!(state.get("osmosis ").is_err());
    assert!(state.get("osmo").is_err());
    assert!(state.get("kyv").is_err());
    assert!(state.get("secretnetwork").is_err());
}

#[test]
fn evmos_alone_has_a_json_rpc_endpoint() {
    let state = registry();
    for chain in state.chains() {
        if chain.name == "evmos" {
            assert_eq!(chain.jsonrpc_url.as_deref(), Some("https://eth.bd.evmos.org:8545/"));
            assert_eq!(chain.decimals_pow, 100_000_000_000_000);
        } else {
            assert_eq!(chain.jsonrpc_url, None);
            assert_eq!(chain.decimals_pow, 100);
        }
    }
}

#[test]
fn lookup_leaves_the_registry_as_it_was() {
    let state = registry();
    let _ = state.get("axelar");
    let _ = state.get("nowhere");
    assert_eq!(state.len(), 5);
    assert_eq!(state.get("axelar").expect("axelar").index, 0);
}
