use vstd::prelude::*;
use crate::batch::{BatchView, Capability, Outcome, Unit, lemma_settled};
use crate::config::{ChainSpec, registry_valid};

verus! {

/// Whether a chain is given a unit of work when `capability` is fanned
/// out. Every chain refreshes its data and its database and runs its
/// subscription; only a chain that tracks its price is given one.
pub open spec fn takes_part(chain: ChainSpec, capability: Capability) -> bool {
    capability is AcceptPrice ==> chain.tracks_price()
}

/// The places, among the first `end` of the registry, of the chains that
/// take part in `capability`, in registry order.
pub open spec fn participants_below(
    registry: Seq<ChainSpec>,
    capability: Capability,
    end: nat,
) -> Seq<int>
    decreases end,
{
    if end == 0 {
        Seq::empty()
    } else {
        let before = participants_below(registry, capability, (end - 1) as nat);
        if takes_part(registry[end - 1], capability) {
            before.push(end - 1)
        } else {
            before
        }
    }
}

/// The places of the chains that take part in `capability`, in registry
/// order.
pub open spec fn participants(registry: Seq<ChainSpec>, capability: Capability) -> Seq<int> {
    participants_below(registry, capability, registry.len())
}

/// The units of a fan-out that hands its chains nothing.
pub open spec fn plain_units(registry: Seq<ChainSpec>, capability: Capability) -> Seq<Unit<()>> {
    participants(registry, capability).map_values(|i: int| Unit { chain: i as usize, input: () })
}

/// The units of a round of price updates: each chain that tracks its price
/// is handed the price that the map has under the chain's identifier, or
/// `None` where the map has none.
pub open spec fn price_units<P>(registry: Seq<ChainSpec>, prices: Map<Seq<char>, P>) -> Seq<
    Unit<Option<P>>,
> {
    participants(registry, Capability::AcceptPrice).map_values(
        |i: int| Unit { chain: i as usize, input: prices.get(registry[i].name) },
    )
}

/// The batch that a fan-out of `capability` launches, which hands its
/// chains nothing.
pub open spec fn plain_round(registry: Seq<ChainSpec>, capability: Capability) -> BatchView<()> {
    BatchView::launched(capability, plain_units(registry, capability))
}

/// The batch that a round of price updates launches once the price feed
/// has returned `prices`.
pub open spec fn price_round<P>(registry: Seq<ChainSpec>, prices: Map<Seq<char>, P>) -> BatchView<
    Option<P>,
> {
    BatchView::launched(Capability::AcceptPrice, price_units(registry, prices))
}

/// The identifiers that the price feed is asked for: those of the chains
/// that track their price, in registry order.
pub open spec fn price_keys(registry: Seq<ChainSpec>) -> Seq<Seq<char>> {
    participants(registry, Capability::AcceptPrice).map_values(|i: int| registry[i].name)
}

/// Of the places of the chains that take part: each lies in the registry
/// and belongs to a chain that takes part, they rise strictly, and no
/// chain that takes part is left out.
pub proof fn lemma_participants(registry: Seq<ChainSpec>, capability: Capability, end: nat)
    requires
        end <= registry.len(),
    ensures
        ({
            let places = participants_below(registry, capability, end);
            &&& places.len() <= end
            &&& forall|k: int|
                0 <= k < places.len() ==> 0 <= #[trigger] places[k] < end && takes_part(
                    registry[places[k]],
                    capability,
                )
            &&& forall|j: int, k: int|
                #![trigger places[j], places[k]]
                0 <= j < k < places.len() ==> places[j] < places[k]
            &&& forall|i: int|
                0 <= i < end && takes_part(#[trigger] registry[i], capability) ==> places.contains(
                    i,
                )
            &&& !(capability is AcceptPrice) ==> places =~= Seq::new(end, |i: int| i)
        }),
    decreases end,
{
    if end > 0 {
        let before = participants_below(registry, capability, (end - 1) as nat);
        let places = participants_below(registry, capability, end);
        lemma_participants(registry, capability, (end - 1) as nat);
        assert forall|i: int|
            0 <= i < end && takes_part(#[trigger] registry[i], capability) implies places.contains(
            i,
        ) by {
            if i < end - 1 {
                let k = choose|k: int| 0 <= k < before.len() && before[k] == i;
                assert(places[k] == i);
            } else {
                assert(places[places.len() - 1] == i);
            }
        }
    }
}

/// A fan-out launches exactly one unit of work for each chain that takes
/// part, and none for any other: every unit is that of a chain of the
/// registry that takes part, the units come in registry order, so that no
/// chain has two, and no chain that takes part is left without one. Data,
/// database and subscription go to every chain: there the unit at slot `k`
/// is that of chain `k`.
pub proof fn lemma_one_unit_per_chain(registry: Seq<ChainSpec>, capability: Capability)
    requires
        registry.len() <= usize::MAX,
    ensures
        ({
            let units = plain_units(registry, capability);
            &&& forall|k: int|
                0 <= k < units.len() ==> (#[trigger] units[k]).chain < registry.len() && takes_part(
                    registry[units[k].chain as int],
                    capability,
                )
            &&& forall|j: int, k: int|
                #![trigger units[j], units[k]]
                0 <= j < k < units.len() ==> units[j].chain < units[k].chain
            &&& forall|i: int|
                0 <= i < registry.len() && takes_part(#[trigger] registry[i], capability)
                    ==> exists|k: int| 0 <= k < units.len() && (#[trigger] units[k]).chain == i
            &&& !(capability is AcceptPrice) ==> {
                &&& units.len() == registry.len()
                &&& forall|k: int| 0 <= k < units.len() ==> (#[trigger] units[k]).chain == k
            }
        }),
{
    lemma_participants(registry, capability, registry.len());
    let places = participants(registry, capability);
    let units = plain_units(registry, capability);
    assert forall|i: int|
        0 <= i < registry.len() && takes_part(#[trigger] registry[i], capability) implies exists|
        k: int,
    | 0 <= k < units.len() && (#[trigger] units[k]).chain == i by {
        let k = choose|k: int| 0 <= k < places.len() && places[k] == i;
        assert(units[k].chain == i);
    }
}

/// A round of price updates launches exactly one unit for each chain that
/// tracks its price, and none for any other; each unit carries what the
/// price map holds under its chain's identifier, a price or the news that
/// there is none.
pub proof fn lemma_one_price_update_per_tracking_chain<P>(
    registry: Seq<ChainSpec>,
    prices: Map<Seq<char>, P>,
)
    requires
        registry.len() <= usize::MAX,
    ensures
        ({
            let units = price_units(registry, prices);
            &&& forall|k: int|
                0 <= k < units.len() ==> {
                    &&& (#[trigger] units[k]).chain < registry.len()
                    &&& registry[units[k].chain as int].tracks_price()
                    &&& units[k].input == prices.get(registry[units[k].chain as int].name)
                }
            &&& forall|j: int, k: int|
                #![trigger units[j], units[k]]
                0 <= j < k < units.len() ==> units[j].chain < units[k].chain
            &&& forall|i: int|
                0 <= i < registry.len() && (#[trigger] registry[i]).tracks_price() ==> exists|
                    k: int,
                | 0 <= k < units.len() && (#[trigger] units[k]).chain == i
        }),
{
    lemma_participants(registry, Capability::AcceptPrice, registry.len());
    let places = participants(registry, Capability::AcceptPrice);
    let units = price_units(registry, prices);
    assert forall|i: int|
        0 <= i < registry.len() && (#[trigger] registry[i]).tracks_price() implies exists|k: int|
        0 <= k < units.len() && (#[trigger] units[k]).chain == i by {
        let k = choose|k: int| 0 <= k < places.len() && places[k] == i;
        assert(units[k].chain == i);
    }
}

/// The chains that get a price update are those whose identifiers the
/// price feed was asked for, in the same order, and each is handed what the
/// price map holds under the identifier that was asked for.
pub proof fn lemma_price_round_follows_request<P>(
    registry: Seq<ChainSpec>,
    prices: Map<Seq<char>, P>,
)
    requires
        registry.len() <= usize::MAX,
    ensures
        ({
            let keys = price_keys(registry);
            let units = price_units(registry, prices);
            &&& units.len() == keys.len()
            &&& forall|k: int|
                0 <= k < units.len() ==> {
                    &&& registry[(#[trigger] units[k]).chain as int].name == keys[k]
                    &&& units[k].input == prices.get(keys[k])
                }
        }),
{
    lemma_participants(registry, Capability::AcceptPrice, registry.len());
}

/// A chain that does not track its price is given no unit in a round of
/// price updates, and, in a registry without repeated identifiers, its
/// identifier is not among those that the price feed is asked for.
pub proof fn lemma_untracked_chain_is_left_out<P>(
    registry: Seq<ChainSpec>,
    prices: Map<Seq<char>, P>,
    i: int,
)
    requires
        registry.len() <= usize::MAX,
        0 <= i < registry.len(),
        !registry[i].tracks_price(),
    ensures
        forall|k: int|
            0 <= k < price_units(registry, prices).len() ==> (#[trigger] price_units(
                registry,
                prices,
            )[k]).chain != i,
        registry_valid(registry) ==> !price_keys(registry).contains(registry[i].name),
{
    lemma_participants(registry, Capability::AcceptPrice, registry.len());
    let places = participants(registry, Capability::AcceptPrice);
    if registry_valid(registry) && price_keys(registry).contains(registry[i].name) {
        let k = choose|k: int|
            0 <= k < price_keys(registry).len() && price_keys(registry)[k] == registry[i].name;
        let j = places[k];
        assert(registry[j].tracks_price());
        if j < i {
            assert(registry[j].name != registry[i].name);
        } else {
            assert(registry[i].name != registry[j].name);
        }
    }
}

/// A fan-out that is repeated launches the same units again, each of them
/// running, however the units of the round before it ended: nothing of a
/// round is kept, and no chain gets a second unit.
pub proof fn lemma_repeated_round_is_fresh(
    registry: Seq<ChainSpec>,
    capability: Capability,
    ends: Seq<Outcome>,
)
    requires
        ends.len() <= participants(registry, capability).len(),
    ensures
        ({
            let first = plain_round(registry, capability);
            let again = plain_round(registry, capability);
            &&& again.units == first.settled(ends).units
            &&& again.units.len() == participants(registry, capability).len()
            &&& forall|k: int| 0 <= k < again.units.len() ==> again.accepts(k)
        }),
{
    lemma_settled(capability, plain_units(registry, capability), ends);
}

/// A round of price updates that is repeated with the same prices launches
/// the same units again, each of them running, however the units of the
/// round before it ended.
pub proof fn lemma_repeated_price_round_is_fresh<P>(
    registry: Seq<ChainSpec>,
    prices: Map<Seq<char>, P>,
    ends: Seq<Outcome>,
)
    requires
        ends.len() <= participants(registry, Capability::AcceptPrice).len(),
    ensures
        ({
            let first = price_round(registry, prices);
            let again = price_round(registry, prices);
            &&& again.units == first.settled(ends).units
            &&& again.units.len() == participants(registry, Capability::AcceptPrice).len()
            &&& forall|k: int| 0 <= k < again.units.len() ==> again.accepts(k)
        }),
{
    lemma_settled(Capability::AcceptPrice, price_units(registry, prices), ends);
}

} // verus!
