use vstd::prelude::*;
use crate::config::{ChainConfig, ChainSpec, is_power_of_ten, pow10, registry_of, registry_valid};

verus! {

/// An owned copy of a piece of the table's text.
fn text(s: &str) -> (t: String)
    ensures
        t@ == s@,
{
    s.to_owned()
}

/// The `axelar` network.
pub open spec fn axelar() -> ChainSpec {
    ChainSpec {
        name: "axelar"@,
        gecko: Some("axelar"@),
        base_prefix: "axelar"@,
        valoper_prefix: "axelarvaloper"@,
        cons_prefix: "axelarvalcons"@,
        main_denom: "uaxl"@,
        rpc_url: "https://rpc.cosmos.directory/axelar"@,
        jsonrpc_url: None,
        rest_url: "https://axelar-api.polkachu.com"@,
        wss_url: "wss://axelar-rpc.chainode.tech/websocket"@,
        sdk_version: 45,
        decimals_pow: 100,
    }
}

fn axelar_config() -> (chain: ChainConfig)
    ensures
        chain@ == axelar(),
{
    ChainConfig {
        name: text("axelar"),
        gecko: Some(text("axelar")),
        base_prefix: text("axelar"),
        valoper_prefix: text("axelarvaloper"),
        cons_prefix: text("axelarvalcons"),
        main_denom: text("uaxl"),
        rpc_url: text("https://rpc.cosmos.directory/axelar"),
        jsonrpc_url: None,
        rest_url: text("https://axelar-api.polkachu.com"),
        wss_url: text("wss://axelar-rpc.chainode.tech/websocket"),
        sdk_version: 45,
        decimals_pow: 100,
    }
}

/// The `evmos` network.
pub open spec fn evmos() -> ChainSpec {
    ChainSpec {
        name: "evmos"@,
        gecko: Some("evmos"@),
        base_prefix: "evmos"@,
        valoper_prefix: "evmosvaloper"@,
        cons_prefix: "evmosvalcons"@,
        main_denom: "aevmos"@,
        rpc_url: "https://rpc.cosmos.directory/evmos"@,
        jsonrpc_url: Some("https://eth.bd.evmos.org:8545/"@),
        rest_url: "https://evmos-api.polkachu.com"@,
        wss_url: "wss://rpc-evmos.ecostake.com/websocket"@,
        sdk_version: 45,
        decimals_pow: 100_000_000_000_000,
    }
}

fn evmos_config() -> (chain: ChainConfig)
    ensures
        chain@ == evmos(),
{
    ChainConfig {
        name: text("evmos"),
        gecko: Some(text("evmos")),
        base_prefix: text("evmos"),
        valoper_prefix: text("evmosvaloper"),
        cons_prefix: text("evmosvalcons"),
        main_denom: text("aevmos"),
        rpc_url: text("https://rpc.cosmos.directory/evmos"),
        jsonrpc_url: Some(text("https://eth.bd.evmos.org:8545/")),
        rest_url: text("https://evmos-api.polkachu.com"),
        wss_url: text("wss://rpc-evmos.ecostake.com/websocket"),
        sdk_version: 45,
        decimals_pow: 100_000_000_000_000,
    }
}

/// The `kyve` network.
pub open spec fn kyve() -> ChainSpec {
    ChainSpec {
        name: "kyve"@,
        gecko: None,
        base_prefix: "kyve"@,
        valoper_prefix: "kyvevaloper"@,
        cons_prefix: "kyvevalcons"@,
        main_denom: "tkyve"@,
        rpc_url: "https://rpc.beta.kyve.network"@,
        jsonrpc_url: None,
        rest_url: "https://api.beta.kyve.network"@,
        wss_url: "wss://rpc.beta.kyve.network/websocket"@,
        sdk_version: 45,
        decimals_pow: 100,
    }
}

fn kyve_config() -> (chain: ChainConfig)
    ensures
        chain@ == kyve(),
{
    ChainConfig {
        name: text("kyve"),
        gecko: None,
        base_prefix: text("kyve"),
        valoper_prefix: text("kyvevaloper"),
        cons_prefix: text("kyvevalcons"),
        main_denom: text("tkyve"),
        rpc_url: text("https://rpc.beta.kyve.network"),
        jsonrpc_url: None,
        rest_url: text("https://api.beta.kyve.network"),
        wss_url: text("wss://rpc.beta.kyve.network/websocket"),
        sdk_version: 45,
        decimals_pow: 100,
    }
}

/// The `osmosis` network.
pub open spec fn osmosis() -> ChainSpec {
    ChainSpec {
        name: "osmosis"@,
        gecko: Some("osmosis"@),
        base_prefix: "osmo"@,
        valoper_prefix: "osmovaloper"@,
        cons_prefix: "osmovalcons"@,
        main_denom: "uosmo"@,
        rpc_url: "https://rpc.cosmos.directory/osmosis"@,
        jsonrpc_url: None,
        rest_url: "https://rest.cosmos.directory/osmosis"@,
        wss_url: "wss://rpc.osmosis.interbloc.org/websocket"@,
        sdk_version: 45,
        decimals_pow: 100,
    }
}

fn osmosis_config() -> (chain: ChainConfig)
    ensures
        chain@ == osmosis(),
{
    ChainConfig {
        name: text("osmosis"),
        gecko: Some(text("osmosis")),
        base_prefix: text("osmo"),
        valoper_prefix: text("osmovaloper"),
        cons_prefix: text("osmovalcons"),
        main_denom: text("uosmo"),
        rpc_url: text("https://rpc.cosmos.directory/osmosis"),
        jsonrpc_url: None,
        rest_url: text("https://rest.cosmos.directory/osmosis"),
        wss_url: text("wss://rpc.osmosis.interbloc.org/websocket"),
        sdk_version: 45,
        decimals_pow: 100,
    }
}

/// The `secret` network.
pub open spec fn secret() -> ChainSpec {
    ChainSpec {
        name: "secret"@,
        gecko: Some("secret"@),
        base_prefix: "secret"@,
        valoper_prefix: "secretvaloper"@,
        cons_prefix: "secretvalcons"@,
        main_denom: "uscrt"@,
        rpc_url: "https://rpc.cosmos.directory/secretnetwork"@,
        jsonrpc_url: None,
        rest_url: "https://rest.cosmos.directory/secretnetwork"@,
        wss_url: "wss://scrt-rpc.blockpane.com/websocket"@,
        sdk_version: 45,
        decimals_pow: 100,
    }
}

fn secret_config() -> (chain: ChainConfig)
    ensures
        chain@ == secret(),
{
    ChainConfig {
        name: text("secret"),
        gecko: Some(text("secret")),
        base_prefix: text("secret"),
        valoper_prefix: text("secretvaloper"),
        cons_prefix: text("secretvalcons"),
        main_denom: text("uscrt"),
        rpc_url: text("https://rpc.cosmos.directory/secretnetwork"),
        jsonrpc_url: None,
        rest_url: text("https://rest.cosmos.directory/secretnetwork"),
        wss_url: text("wss://scrt-rpc.blockpane.com/websocket"),
        sdk_version: 45,
        decimals_pow: 100,
    }
}

/// The chains that the registry is built with, in registry order.
pub open spec fn default_registry() -> Seq<ChainSpec> {
    seq![axelar(), evmos(), kyve(), osmosis(), secret()]
}

/// The compiled-in table is one that a registry can be built of: every
/// chain in it is valid and no identifier occurs twice.
pub proof fn lemma_default_registry_valid()
    ensures
        registry_valid(default_registry()),
{
    reveal_strlit("axelar");
    reveal_strlit("evmos");
    reveal_strlit("kyve");
    reveal_strlit("osmosis");
    reveal_strlit("secret");
    assert(is_power_of_ten(100)) by {
        reveal_with_fuel(pow10, 3);
        assert(pow10(2) == 100);
    }
    assert(is_power_of_ten(100_000_000_000_000)) by {
        reveal_with_fuel(pow10, 15);
        assert(pow10(14) == 100_000_000_000_000);
    }
    let registry = default_registry();
    assert(registry[0].valid());
    assert(registry[1].valid());
    assert(registry[2].valid());
    assert(registry[3].valid());
    assert(registry[4].valid());
    assert(registry[0].name[0] != registry[4].name[0]);
}

/// The compiled-in table of chains.
pub fn default_chains() -> (chains: Vec<ChainConfig>)
    ensures
        registry_of(chains@) == default_registry(),
{
    let mut chains: Vec<ChainConfig> = Vec::new();
    chains.push(axelar_config());
    chains.push(evmos_config());
    chains.push(kyve_config());
    chains.push(osmosis_config());
    chains.push(secret_config());
    assert(registry_of(chains@) =~= default_registry());
    chains
}

} // verus!
