use vstd::prelude::*;
use vstd::string::StringExecFns;
use crate::batch::{Batch, Capability, Unit};
use crate::chains::{default_chains, default_registry, lemma_default_registry_valid};
use crate::client::{build_client, share_client};
use crate::config::{ChainConfig, ChainSpec, registry_of, registry_valid};
use crate::dispatch::{
    lemma_participants, participants_below, plain_round, price_keys, price_round, takes_part,
};
use crate::prices::PriceMap;
use crate::text::{is_capital, str_eq};

verus! {

/// Some chain of the registry has the identifier `name`.
pub open spec fn supports(registry: Seq<ChainSpec>, name: Seq<char>) -> bool {
    exists|i: int| 0 <= i < registry.len() && (#[trigger] registry[i]).name == name
}

/// In a valid registry a name belongs to one chain at most, so a lookup that
/// succeeds can only give that chain.
pub proof fn lemma_lookup_is_unique(registry: Seq<ChainSpec>, name: Seq<char>, i: int, j: int)
    requires
        registry_valid(registry),
        0 <= i < registry.len(),
        0 <= j < registry.len(),
        registry[i].name == name,
        registry[j].name == name,
    ensures
        i == j,
{
    if i < j {
        assert(registry[i].name != registry[j].name);
    } else if j < i {
        assert(registry[j].name != registry[i].name);
    }
}

/// A name with an ASCII capital letter in it is the name of no chain of a
/// valid registry.
pub proof fn lemma_capitals_are_unsupported(registry: Seq<ChainSpec>, name: Seq<char>, at: int)
    requires
        registry_valid(registry),
        0 <= at < name.len(),
        is_capital(name[at]),
    ensures
        !supports(registry, name),
{
    if supports(registry, name) {
        let i = choose|i: int| 0 <= i < registry.len() && (#[trigger] registry[i]).name == name;
        assert(registry[i].valid());
        assert(!is_capital(registry[i].name[at]));
    }
}

/// The text that tells a user that `name` is no chain of the registry.
pub open spec fn unsupported_message(name: Seq<char>) -> Seq<char> {
    name + " is not a supported chain."@
}

/// A lookup by a name that no chain of the registry has.
#[derive(Debug)]
pub struct UnsupportedChain {
    /// The name that was asked for.
    pub name: String,
}

impl UnsupportedChain {
    /// The message for the user.
    pub fn message(&self) -> (text: String)
        ensures
            text@ == unsupported_message(self.name@),
    {
        self.name.clone().concat(" is not a supported chain.")
    }
}

/// Why a registry could not be built.
#[derive(Debug)]
pub enum InitError {
    /// The configuration at this position has a capital letter in its
    /// identifier, or a scaling factor that is no power of ten.
    InvalidChain(usize),
    /// The configuration at this position repeats the identifier of an
    /// earlier one.
    DuplicateChain(usize),
    /// The shared HTTP client could not be built.
    ClientUnavailable(reqwest::Error),
}

/// A registered chain, as a lookup hands it out: its place in the registry
/// and what it was configured with.
#[derive(Debug)]
pub struct Chain {
    /// The chain's place in the registry, which is also its place in the
    /// units of a fan-out.
    pub index: usize,
    /// A copy of the chain's configuration.
    pub config: ChainConfig,
}

/// The registry of chains and the HTTP client that they share. It is built
/// once and never changes.
#[derive(Debug)]
pub struct State {
    chains: Vec<ChainConfig>,
    client: reqwest::Client,
}

impl View for State {
    type V = Seq<ChainSpec>;

    /// The registered chains, in registry order.
    closed spec fn view(&self) -> Seq<ChainSpec> {
        registry_of(self.chains@)
    }
}

/// The position of the first invalid configuration, if there is one.
fn first_invalid(chains: &Vec<ChainConfig>) -> (at: Option<usize>)
    ensures
        match at {
            Some(i) => {
                &&& i < chains.len()
                &&& !chains[i as int]@.valid()
                &&& forall|k: int| 0 <= k < i ==> (#[trigger] chains[k])@.valid()
            },
            None => forall|k: int| 0 <= k < chains.len() ==> (#[trigger] chains[k])@.valid(),
        },
{
    let mut i: usize = 0;
    while i < chains.len()
        invariant
            0 <= i <= chains.len(),
            forall|k: int| 0 <= k < i ==> (#[trigger] chains[k])@.valid(),
        decreases chains.len() - i,
    {
        if !chains[i].is_valid() {
            return Some(i);
        }
        i += 1;
    }
    None
}

/// Whether one of the first `end` configurations has the identifier `name`.
fn named_before(chains: &Vec<ChainConfig>, end: usize, name: &str) -> (found: bool)
    requires
        end <= chains.len(),
    ensures
        found == exists|j: int| 0 <= j < end && (#[trigger] chains[j]).name@ == name@,
{
    let mut j: usize = 0;
    while j < end
        invariant
            0 <= j <= end <= chains.len(),
            forall|k: int| 0 <= k < j ==> (#[trigger] chains[k]).name@ != name@,
        decreases end - j,
    {
        if str_eq(chains[j].name.as_str(), name) {
            return true;
        }
        j += 1;
    }
    false
}

/// The position of the first configuration that repeats an earlier
/// identifier, if there is one.
fn first_duplicate(chains: &Vec<ChainConfig>) -> (at: Option<usize>)
    ensures
        match at {
            Some(i) => {
                &&& i < chains.len()
                &&& exists|j: int|
                    0 <= j < i && (#[trigger] chains[j]).name@ == chains[i as int].name@
                &&& forall|a: int, b: int|
                    #![trigger chains[a], chains[b]]
                    0 <= a < b < i ==> chains[a].name@ != chains[b].name@
            },
            None => forall|a: int, b: int|
                #![trigger chains[a], chains[b]]
                0 <= a < b < chains.len() ==> chains[a].name@ != chains[b].name@,
        },
{
    let mut i: usize = 0;
    while i < chains.len()
        invariant
            0 <= i <= chains.len(),
            forall|a: int, b: int|
                #![trigger chains[a], chains[b]]
                0 <= a < b < i ==> chains[a].name@ != chains[b].name@,
        decreases chains.len() - i,
    {
        if named_before(chains, i, chains[i].name.as_str()) {
            return Some(i);
        }
        i += 1;
    }
    None
}

/// Whether `chain` is given a unit of work when `capability` is fanned out.
fn is_participant(chain: &ChainConfig, capability: Capability) -> (yes: bool)
    ensures
        yes == takes_part(chain@, capability),
{
    match capability {
        Capability::AcceptPrice => chain.tracks_price(),
        _ => true,
    }
}

impl State {
    #[verifier::type_invariant]
    spec fn well_formed(self) -> bool {
        registry_valid(registry_of(self.chains@))
    }

    /// The one HTTP client that the registry was built around, and that
    /// every chain and the price feed share.
    pub closed spec fn shared_client(&self) -> reqwest::Client {
        self.client
    }

    /// Builds a registry of the given chains around one HTTP client. Every
    /// configuration must be valid and no identifier may occur twice; the
    /// error names the first position that breaks a rule, invalid
    /// configurations first.
    pub fn with_chains(chains: Vec<ChainConfig>, client: reqwest::Client) -> (built: Result<
        State,
        InitError,
    >)
        ensures
            built is Ok <==> registry_valid(registry_of(chains@)),
            match built {
                Ok(state) => {
                    &&& state@ == registry_of(chains@)
                    &&& state.shared_client() == client
                },
                Err(InitError::InvalidChain(i)) => {
                    &&& i < chains.len()
                    &&& !chains[i as int]@.valid()
                    &&& forall|k: int| 0 <= k < i ==> (#[trigger] chains[k])@.valid()
                },
                Err(InitError::DuplicateChain(i)) => {
                    &&& i < chains.len()
                    &&& forall|k: int| 0 <= k < chains.len() ==> (#[trigger] chains[k])@.valid()
                    &&& exists|j: int|
                        0 <= j < i && (#[trigger] chains[j]).name@ == chains[i as int].name@
                    &&& forall|a: int, b: int|
                        #![trigger chains[a], chains[b]]
                        0 <= a < b < i ==> chains[a].name@ != chains[b].name@
                },
                Err(InitError::ClientUnavailable(_)) => false,
            },
    {
        let ghost registry = registry_of(chains@);
        if let Some(i) = first_invalid(&chains) {
            assert(!registry[i as int].valid());
            return Err(InitError::InvalidChain(i));
        }
        if let Some(i) = first_duplicate(&chains) {
            proof {
                let j = choose|j: int|
                    0 <= j < i && (#[trigger] chains[j]).name@ == chains[i as int].name@;
                assert(registry[j].name == registry[i as int].name);
            }
            return Err(InitError::DuplicateChain(i));
        }
        assert(registry_valid(registry)) by {
            assert forall|k: int| 0 <= k < registry.len() implies (#[trigger] registry[k]).valid()
                by {
                assert(chains[k]@.valid());
            }
            assert forall|a: int, b: int|
                #![trigger registry[a], registry[b]]
                0 <= a < b < registry.len() implies registry[a].name != registry[b].name by {
                assert(chains[a].name@ != chains[b].name@);
            }
        }
        Ok(State { chains, client })
    }

    /// Builds the registry of the compiled-in chains from the outcome of
    /// building the HTTP client.
    pub fn assemble(client: Result<reqwest::Client, reqwest::Error>) -> (built: Result<
        State,
        InitError,
    >)
        ensures
            match client {
                Ok(c) => {
                    &&& built matches Ok(state)
                    &&& state@ == default_registry()
                    &&& state.shared_client() == c
                },
                Err(e) => built == Err::<State, InitError>(InitError::ClientUnavailable(e)),
            },
    {
        match client {
            Ok(client) => {
                proof {
                    lemma_default_registry_valid();
                }
                State::with_chains(default_chains(), client)
            },
            Err(e) => Err(InitError::ClientUnavailable(e)),
        }
    }

    /// Builds the HTTP client and, around it, the registry of the
    /// compiled-in chains. The only failure is that of building the client.
    pub fn new() -> (built: Result<State, InitError>)
        ensures
            match built {
                Ok(state) => state@ == default_registry(),
                Err(e) => e is ClientUnavailable,
            },
    {
        State::assemble(build_client())
    }

    /// The number of registered chains.
    pub fn len(&self) -> (n: usize)
        ensures
            n == self@.len(),
    {
        self.chains.len()
    }

    /// The configurations of the registered chains, in registry order.
    pub fn chains(&self) -> (chains: &Vec<ChainConfig>)
        ensures
            registry_of(chains@) == self@,
            registry_valid(self@),
    {
        proof {
            use_type_invariant(self);
        }
        &self.chains
    }

    /// The chain with the identifier `name`: its place in the registry and
    /// a copy of its configuration. A name that no registered chain has is
    /// handed back in the error.
    pub fn get(&self, name: &str) -> (found: Result<Chain, UnsupportedChain>)
        ensures
            found is Ok <==> supports(self@, name@),
            match found {
                Ok(chain) => {
                    &&& chain.index < self@.len()
                    &&& chain.config@ == self@[chain.index as int]
                    &&& chain.config@.name == name@
                },
                Err(e) => e.name@ == name@,
            },
    {
        let mut i: usize = 0;
        while i < self.chains.len()
            invariant
                0 <= i <= self.chains.len(),
                forall|k: int| 0 <= k < i ==> (#[trigger] self@[k]).name != name@,
            decreases self.chains.len() - i,
        {
            if str_eq(self.chains[i].name.as_str(), name) {
                assert(self@[i as int].name == name@);
                return Ok(Chain { index: i, config: self.chains[i].clone() });
            }
            i += 1;
        }
        Err(UnsupportedChain { name: name.to_owned() })
    }

    /// Launches `capability` on every chain that takes part in it, handing
    /// each nothing.
    fn fan_out(&self, capability: Capability) -> (batch: Batch<()>)
        ensures
            batch@ == plain_round(self@, capability),
    {
        let mut units: Vec<Unit<()>> = Vec::new();
        let mut i: usize = 0;
        while i < self.chains.len()
            invariant
                0 <= i <= self.chains.len(),
                units@ =~= participants_below(self@, capability, i as nat).map_values(
                    |i: int| Unit { chain: i as usize, input: () },
                ),
            decreases self.chains.len() - i,
        {
            if is_participant(&self.chains[i], capability) {
                units.push(Unit { chain: i, input: () });
            }
            i += 1;
        }
        proof {
            lemma_participants(self@, capability, self@.len());
        }
        Batch::launch(capability, units)
    }

    /// Starts a refresh of the on-chain data of every registered chain:
    /// the batch holds one unit for each, none of which has ended.
    pub fn update_data(&self) -> (batch: Batch<()>)
        ensures
            batch@ == plain_round(self@, Capability::RefreshData),
    {
        self.fan_out(Capability::RefreshData)
    }

    /// Starts a refresh of the validator database of every registered
    /// chain: the batch holds one unit for each, none of which has ended.
    pub fn update_database(&self) -> (batch: Batch<()>)
        ensures
            batch@ == plain_round(self@, Capability::RefreshDatabase),
    {
        self.fan_out(Capability::RefreshDatabase)
    }

    /// Starts the event subscription of every registered chain: the batch
    /// holds one unit for each, none of which has ended.
    pub fn subscribe_to_events(&self) -> (batch: Batch<()>)
        ensures
            batch@ == plain_round(self@, Capability::Subscribe),
    {
        self.fan_out(Capability::Subscribe)
    }

    /// The identifiers to ask the price feed for, in one request: those of
    /// the chains that track their price.
    pub fn price_request(&self) -> (keys: Vec<String>)
        ensures
            keys@.map_values(|key: String| key@) == price_keys(self@),
    {
        let mut keys: Vec<String> = Vec::new();
        let mut i: usize = 0;
        while i < self.chains.len()
            invariant
                0 <= i <= self.chains.len(),
                keys@.map_values(|key: String| key@) =~= participants_below(
                    self@,
                    Capability::AcceptPrice,
                    i as nat,
                ).map_values(|i: int| self@[i].name),
            decreases self.chains.len() - i,
        {
            if self.chains[i].tracks_price() {
                let ghost before = keys@;
                keys.push(self.chains[i].name.clone());
                assert(keys@.map_values(|key: String| key@) =~= before.map_values(
                    |key: String| key@,
                ).push(self@[i as int].name));
            }
            i += 1;
        }
        keys
    }

    /// Starts a round of price updates with what the price feed returned:
    /// the batch holds one unit for each chain that tracks its price, with
    /// the price that `prices` has under the chain's identifier, or `None`
    /// where it has none. A chain that does not track its price gets no
    /// unit.
    pub fn update_prices<P: Copy>(&self, prices: &PriceMap<P>) -> (batch: Batch<Option<P>>)
        ensures
            batch@ == price_round(self@, prices@),
    {
        let mut units: Vec<Unit<Option<P>>> = Vec::new();
        let mut i: usize = 0;
        while i < self.chains.len()
            invariant
                0 <= i <= self.chains.len(),
                units@ =~= participants_below(self@, Capability::AcceptPrice, i as nat).map_values(
                    |i: int| Unit { chain: i as usize, input: prices@.get(self@[i].name) },
                ),
            decreases self.chains.len() - i,
        {
            if self.chains[i].tracks_price() {
                let input = prices.get(self.chains[i].name.as_str());
                units.push(Unit { chain: i, input });
            }
            i += 1;
        }
        proof {
            lemma_participants(self@, Capability::AcceptPrice, self@.len());
        }
        Batch::launch(Capability::AcceptPrice, units)
    }

    /// A handle to the shared HTTP client: every call hands out the same
    /// client, the one that the registry was built around.
    pub fn client(&self) -> (handle: reqwest::Client)
        ensures
            handle == self.shared_client(),
    {
        share_client(&self.client)
    }
}

} // verus!
