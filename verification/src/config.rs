use vstd::prelude::*;
use crate::text::{has_no_capital, is_lowercase};

verus! {

/// Ten to the power `k`.
pub open spec fn pow10(k: nat) -> nat
    decreases k,
{
    if k == 0 {
        1
    } else {
        10 * pow10((k - 1) as nat)
    }
}

/// `n` is one of 1, 10, 100, ...
pub open spec fn is_power_of_ten(n: nat) -> bool {
    exists|k: nat| n == pow10(k)
}

proof fn lemma_pow10_positive(k: nat)
    ensures
        pow10(k) >= 1,
        k >= 1 ==> pow10(k) % 10 == 0 && pow10(k) >= 10,
    decreases k,
{
    if k >= 1 {
        lemma_pow10_positive((k - 1) as nat);
    }
}

/// Dropping a trailing zero keeps a number among the powers of ten, and
/// only the power 1 has no trailing zero.
proof fn lemma_power_of_ten_step(m: nat)
    requires
        m >= 1,
    ensures
        m % 10 == 0 ==> (is_power_of_ten(m) <==> is_power_of_ten(m / 10)),
        m % 10 != 0 ==> (is_power_of_ten(m) <==> m == 1),
{
    if is_power_of_ten(m) {
        let k = choose|k: nat| m == pow10(k);
        lemma_pow10_positive(k);
        if k >= 1 {
            assert(m / 10 == pow10((k - 1) as nat));
        }
    }
    if m % 10 == 0 && is_power_of_ten(m / 10) {
        let j = choose|j: nat| m / 10 == pow10(j);
        assert(m == pow10(j + 1));
    }
    if m == 1 {
        assert(m == pow10(0));
    }
}

/// Whether `n` is a power of ten.
pub fn power_of_ten(n: u64) -> (ok: bool)
    ensures
        ok == is_power_of_ten(n as nat),
{
    if n == 0 {
        proof {
            assert forall|k: nat| pow10(k) != 0 by {
                lemma_pow10_positive(k);
            }
        }
        return false;
    }
    let mut m: u64 = n;
    while m % 10 == 0
        invariant
            m >= 1,
            is_power_of_ten(m as nat) == is_power_of_ten(n as nat),
        decreases m,
    {
        proof {
            lemma_power_of_ten_step(m as nat);
        }
        m = m / 10;
    }
    proof {
        lemma_power_of_ten_step(m as nat);
    }
    m == 1
}

/// What one chain is configured with, as mathematical values.
pub struct ChainSpec {
    pub name: Seq<char>,
    pub gecko: Option<Seq<char>>,
    pub base_prefix: Seq<char>,
    pub valoper_prefix: Seq<char>,
    pub cons_prefix: Seq<char>,
    pub main_denom: Seq<char>,
    pub rpc_url: Seq<char>,
    pub jsonrpc_url: Option<Seq<char>>,
    pub rest_url: Seq<char>,
    pub wss_url: Seq<char>,
    pub sdk_version: u8,
    pub decimals_pow: u64,
}

impl ChainSpec {
    /// The identifier is lowercase and the scaling factor is a power of ten.
    pub open spec fn valid(self) -> bool {
        &&& is_lowercase(self.name)
        &&& is_power_of_ten(self.decimals_pow as nat)
    }

    /// The chain takes part in price tracking: it has a price-feed key.
    pub open spec fn tracks_price(self) -> bool {
        self.gecko is Some
    }
}

/// The configuration of one chain, fixed when the registry is built.
///
/// `gecko` is the chain's key at the price feed; a chain without one takes
/// no part in price tracking. `jsonrpc_url` is present only for chains
/// that expose a JSON-RPC endpoint. `decimals_pow` is the power of ten by
/// which an amount in `main_denom` is divided for display.
#[derive(Debug)]
pub struct ChainConfig {
    pub name: String,
    pub gecko: Option<String>,
    pub base_prefix: String,
    pub valoper_prefix: String,
    pub cons_prefix: String,
    pub main_denom: String,
    pub rpc_url: String,
    pub jsonrpc_url: Option<String>,
    pub rest_url: String,
    pub wss_url: String,
    pub sdk_version: u8,
    pub decimals_pow: u64,
}

/// The characters of an optional string.
pub open spec fn opt_view(s: Option<String>) -> Option<Seq<char>> {
    match s {
        Some(t) => Some(t@),
        None => None,
    }
}

impl View for ChainConfig {
    type V = ChainSpec;

    open spec fn view(&self) -> ChainSpec {
        ChainSpec {
            name: self.name@,
            gecko: opt_view(self.gecko),
            base_prefix: self.base_prefix@,
            valoper_prefix: self.valoper_prefix@,
            cons_prefix: self.cons_prefix@,
            main_denom: self.main_denom@,
            rpc_url: self.rpc_url@,
            jsonrpc_url: opt_view(self.jsonrpc_url),
            rest_url: self.rest_url@,
            wss_url: self.wss_url@,
            sdk_version: self.sdk_version,
            decimals_pow: self.decimals_pow,
        }
    }
}

/// The registry that a list of configurations stands for.
pub open spec fn registry_of(chains: Seq<ChainConfig>) -> Seq<ChainSpec> {
    chains.map_values(|c: ChainConfig| c@)
}

/// Every chain is valid and no identifier occurs twice.
pub open spec fn registry_valid(registry: Seq<ChainSpec>) -> bool {
    &&& forall|i: int| 0 <= i < registry.len() ==> (#[trigger] registry[i]).valid()
    &&& forall|i: int, j: int|
        #![trigger registry[i], registry[j]]
        0 <= i < j < registry.len() ==> registry[i].name != registry[j].name
}

impl Clone for ChainConfig {
    fn clone(&self) -> (copy: Self)
        ensures
            copy == *self,
    {
        ChainConfig {
            name: self.name.clone(),
            gecko: self.gecko.clone(),
            base_prefix: self.base_prefix.clone(),
            valoper_prefix: self.valoper_prefix.clone(),
            cons_prefix: self.cons_prefix.clone(),
            main_denom: self.main_denom.clone(),
            rpc_url: self.rpc_url.clone(),
            jsonrpc_url: self.jsonrpc_url.clone(),
            rest_url: self.rest_url.clone(),
            wss_url: self.wss_url.clone(),
            sdk_version: self.sdk_version,
            decimals_pow: self.decimals_pow,
        }
    }
}

impl ChainConfig {
    /// Whether the configuration is one that a registry accepts.
    pub fn is_valid(&self) -> (ok: bool)
        ensures
            ok == self@.valid(),
    {
        has_no_capital(self.name.as_str()) && power_of_ten(self.decimals_pow)
    }

    /// Whether the chain takes part in price tracking.
    pub fn tracks_price(&self) -> (yes: bool)
        ensures
            yes == self@.tracks_price(),
    {
        self.gecko.is_some()
    }
}

} // verus!
