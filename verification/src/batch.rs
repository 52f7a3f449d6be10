use vstd::prelude::*;

verus! {

/// What a chain is asked to do in one unit of work.
#[derive(Clone, Copy, Debug, PartialEq, Eq)]
pub enum Capability {
    /// Refresh the chain's on-chain data.
    RefreshData,
    /// Take the chain's price, or the news that there is none.
    AcceptPrice,
    /// Refresh the chain's validator database.
    RefreshDatabase,
    /// Run the chain's event subscription until it ends.
    Subscribe,
}

/// How a unit of work ended.
#[derive(Clone, Copy, Debug, PartialEq, Eq)]
pub enum Outcome {
    Completed,
    Failed,
}

/// One unit of work: the chain that does it, by its place in the registry,
/// and what is handed to it.
#[derive(Debug)]
pub struct Unit<T> {
    pub chain: usize,
    pub input: T,
}

/// A batch as mathematical values: the units that were launched together
/// and, for each, how it ended, if it has.
pub struct BatchView<T> {
    pub capability: Capability,
    pub units: Seq<Unit<T>>,
    pub outcomes: Seq<Option<Outcome>>,
}

impl<T> BatchView<T> {
    /// Each unit has its place for an outcome, and the units come in
    /// registry order, so that no chain has two.
    pub open spec fn wf(self) -> bool {
        &&& self.outcomes.len() == self.units.len()
        &&& forall|j: int, k: int|
            #![trigger self.units[j], self.units[k]]
            0 <= j < k < self.units.len() ==> self.units[j].chain < self.units[k].chain
    }

    /// The batch in which these units have just been launched.
    pub open spec fn launched(capability: Capability, units: Seq<Unit<T>>) -> BatchView<T> {
        BatchView { capability, units, outcomes: Seq::new(units.len(), |k: int| None) }
    }

    /// The unit at `slot` is still running.
    pub open spec fn accepts(self, slot: int) -> bool {
        0 <= slot < self.outcomes.len() && self.outcomes[slot] is None
    }

    /// The batch after the unit at `slot` has ended with `outcome`.
    pub open spec fn recorded(self, slot: int, outcome: Outcome) -> BatchView<T> {
        BatchView { outcomes: self.outcomes.update(slot, Some(outcome)), ..self }
    }

    /// Every unit has ended, one way or the other.
    pub open spec fn complete(self) -> bool {
        forall|k: int| 0 <= k < self.outcomes.len() ==> (#[trigger] self.outcomes[k]) is Some
    }

    /// The batch after its first units have ended, the unit at slot `k`
    /// with `ends[k]`.
    pub open spec fn settled(self, ends: Seq<Outcome>) -> BatchView<T>
        decreases ends.len(),
    {
        if ends.len() == 0 {
            self
        } else {
            self.settled(ends.drop_last()).recorded(ends.len() - 1, ends.last())
        }
    }
}

/// The units of one fan-out and what has become of each. A batch is
/// complete once every unit has ended, whether it failed or not.
#[derive(Debug)]
pub struct Batch<T> {
    capability: Capability,
    units: Vec<Unit<T>>,
    outcomes: Vec<Option<Outcome>>,
}

impl<T> View for Batch<T> {
    type V = BatchView<T>;

    closed spec fn view(&self) -> BatchView<T> {
        BatchView { capability: self.capability, units: self.units@, outcomes: self.outcomes@ }
    }
}

impl<T> Batch<T> {
    #[verifier::type_invariant]
    spec fn well_formed(self) -> bool {
        self@.wf()
    }

    /// The batch of the given units, none of which has ended.
    pub(crate) fn launch(capability: Capability, units: Vec<Unit<T>>) -> (batch: Batch<T>)
        requires
            forall|j: int, k: int|
                #![trigger units[j], units[k]]
                0 <= j < k < units.len() ==> units[j].chain < units[k].chain,
        ensures
            batch@ == BatchView::launched(capability, units@),
    {
        let mut outcomes: Vec<Option<Outcome>> = Vec::new();
        let mut k: usize = 0;
        while k < units.len()
            invariant
                0 <= k <= units.len(),
                outcomes@ =~= Seq::new(k as nat, |k: int| None),
            decreases units.len() - k,
        {
            outcomes.push(None);
            k += 1;
        }
        Batch { capability, units, outcomes }
    }

    /// What every unit of the batch is asked to do.
    pub fn capability(&self) -> (capability: Capability)
        ensures
            capability == self@.capability,
    {
        self.capability
    }

    /// The number of units.
    pub fn len(&self) -> (n: usize)
        ensures
            n == self@.units.len(),
            self@.wf(),
    {
        proof {
            use_type_invariant(self);
        }
        self.units.len()
    }

    /// The units, in registry order.
    pub fn units(&self) -> (units: &Vec<Unit<T>>)
        ensures
            units@ == self@.units,
            self@.wf(),
    {
        proof {
            use_type_invariant(self);
        }
        &self.units
    }

    /// How each unit ended, in the order of the units; `None` for one that
    /// is still running.
    pub fn outcomes(&self) -> (outcomes: &Vec<Option<Outcome>>)
        ensures
            outcomes@ == self@.outcomes,
            self@.wf(),
    {
        proof {
            use_type_invariant(self);
        }
        &self.outcomes
    }

    /// Notes that the unit at `slot` has ended with `outcome`. A slot that
    /// the batch does not have, or whose unit has already ended, is turned
    /// down and the batch stays as it was.
    pub fn record(&mut self, slot: usize, outcome: Outcome) -> (accepted: bool)
        ensures
            accepted == old(self)@.accepts(slot as int),
            accepted ==> final(self)@ == old(self)@.recorded(slot as int, outcome),
            !accepted ==> final(self)@ == old(self)@,
    {
        proof {
            use_type_invariant(&*self);
        }
        if slot < self.outcomes.len() && self.outcomes[slot].is_none() {
            self.outcomes[slot] = Some(outcome);
            true
        } else {
            false
        }
    }

    /// Whether every unit has ended.
    pub fn is_complete(&self) -> (done: bool)
        ensures
            done == self@.complete(),
    {
        let mut k: usize = 0;
        while k < self.outcomes.len()
            invariant
                0 <= k <= self.outcomes.len(),
                forall|j: int| 0 <= j < k ==> (#[trigger] self.outcomes[j]) is Some,
            decreases self.outcomes.len() - k,
        {
            if self.outcomes[k].is_none() {
                return false;
            }
            k += 1;
        }
        true
    }
}

/// A unit that fails touches nothing but its own outcome: the units of the
/// batch stay as they were, every other unit keeps its outcome and, where
/// it was still running, can still end; and the batch is complete, or not,
/// just as if the unit had ended well.
pub proof fn lemma_failure_is_isolated<T>(batch: BatchView<T>, slot: int, other: int)
    requires
        batch.accepts(slot),
        0 <= other < batch.outcomes.len(),
        other != slot,
    ensures
        batch.recorded(slot, Outcome::Failed).units == batch.units,
        batch.recorded(slot, Outcome::Failed).outcomes[other] == batch.outcomes[other],
        batch.recorded(slot, Outcome::Failed).accepts(other) == batch.accepts(other),
        batch.recorded(slot, Outcome::Failed).complete() == batch.recorded(
            slot,
            Outcome::Completed,
        ).complete(),
{
    let failed = batch.recorded(slot, Outcome::Failed);
    let passed = batch.recorded(slot, Outcome::Completed);
    if failed.complete() {
        assert forall|k: int| 0 <= k < passed.outcomes.len() implies (#[trigger] passed.outcomes[k])
            is Some by {
            assert(failed.outcomes[k] is Some);
        }
    }
    if passed.complete() {
        assert forall|k: int| 0 <= k < failed.outcomes.len() implies (#[trigger] failed.outcomes[k])
            is Some by {
            assert(passed.outcomes[k] is Some);
        }
    }
}

/// The order in which two units end makes no difference to the batch.
pub proof fn lemma_order_is_free<T>(
    batch: BatchView<T>,
    slot: int,
    outcome: Outcome,
    other: int,
    other_outcome: Outcome,
)
    requires
        batch.accepts(slot),
        batch.accepts(other),
        other != slot,
    ensures
        batch.recorded(slot, outcome).accepts(other),
        batch.recorded(other, other_outcome).accepts(slot),
        batch.recorded(slot, outcome).recorded(other, other_outcome) == batch.recorded(
            other,
            other_outcome,
        ).recorded(slot, outcome),
{
    assert(batch.outcomes.update(slot, Some(outcome)).update(other, Some(other_outcome))
        =~= batch.outcomes.update(other, Some(other_outcome)).update(slot, Some(outcome)));
}

/// Once the first `ends.len()` units of a batch that was just launched
/// have ended, each has the outcome it ended with, whatever the others
/// did, and the rest are still running.
pub proof fn lemma_settled<T>(capability: Capability, units: Seq<Unit<T>>, ends: Seq<Outcome>)
    requires
        ends.len() <= units.len(),
    ensures
        ({
            let batch = BatchView::launched(capability, units).settled(ends);
            &&& batch.capability == capability
            &&& batch.units == units
            &&& batch.outcomes.len() == units.len()
            &&& forall|k: int| 0 <= k < ends.len() ==> batch.outcomes[k] == Some(ends[k])
            &&& forall|k: int| ends.len() <= k < units.len() ==> batch.accepts(k)
        }),
    decreases ends.len(),
{
    let batch = BatchView::launched(capability, units).settled(ends);
    if ends.len() > 0 {
        let before = BatchView::launched(capability, units).settled(ends.drop_last());
        lemma_settled(capability, units, ends.drop_last());
        assert(batch == before.recorded(ends.len() - 1, ends.last()));
        assert forall|k: int| 0 <= k < ends.len() implies batch.outcomes[k] == Some(ends[k]) by {
            if k < ends.len() - 1 {
                assert(before.outcomes[k] == Some(ends.drop_last()[k]));
            }
        }
        assert forall|k: int| ends.len() <= k < units.len() implies batch.accepts(k) by {
            assert(before.accepts(k));
        }
    }
}

/// A batch completes whether or not its units fail: once every unit has
/// ended, with whatever outcome, the batch is complete.
pub proof fn lemma_batch_completes<T>(
    capability: Capability,
    units: Seq<Unit<T>>,
    ends: Seq<Outcome>,
)
    requires
        ends.len() == units.len(),
    ensures
        BatchView::launched(capability, units).settled(ends).complete(),
{
    lemma_settled(capability, units, ends);
}

} // verus!
