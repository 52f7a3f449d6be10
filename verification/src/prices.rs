use vstd::prelude::*;
use crate::text::str_eq;

verus! {

/// One entry of a price map.
#[derive(Debug)]
struct Quote<P> {
    key: String,
    price: P,
}

/// What the price feed returned for one request: a price for each chain
/// identifier that it had one for. It is made anew for every round of price
/// updates. The type of a price is the caller's choice.
#[derive(Debug)]
pub struct PriceMap<P> {
    quotes: Vec<Quote<P>>,
}

impl<P> PriceMap<P> {
    /// No key occurs twice.
    #[verifier::type_invariant]
    spec fn well_formed(self) -> bool {
        forall|i: int, j: int|
            #![trigger self.quotes[i], self.quotes[j]]
            0 <= i < j < self.quotes.len() ==> self.quotes[i].key@ != self.quotes[j].key@
    }

    /// The entry at `i` is the one for `key`.
    spec fn at(self, key: Seq<char>, i: int) -> bool {
        0 <= i < self.quotes.len() && self.quotes[i].key@ == key
    }

    /// The position of the entry for `key`, if there is one.
    fn position(&self, key: &str) -> (at: Option<usize>)
        ensures
            match at {
                Some(i) => self.at(key@, i as int),
                None => forall|i: int| !self.at(key@, i),
            },
    {
        let mut i: usize = 0;
        while i < self.quotes.len()
            invariant
                0 <= i <= self.quotes.len(),
                forall|k: int| 0 <= k < i ==> !self.at(key@, k),
            decreases self.quotes.len() - i,
        {
            if str_eq(self.quotes[i].key.as_str(), key) {
                return Some(i);
            }
            i += 1;
        }
        None
    }
}

impl<P> View for PriceMap<P> {
    type V = Map<Seq<char>, P>;

    closed spec fn view(&self) -> Map<Seq<char>, P> {
        Map::new(
            |key: Seq<char>| exists|i: int| self.at(key, i),
            |key: Seq<char>| self.quotes[choose|i: int| self.at(key, i)].price,
        )
    }
}

impl<P: Copy> PriceMap<P> {
    /// The map without any price.
    pub fn new() -> (prices: PriceMap<P>)
        ensures
            prices@ == Map::<Seq<char>, P>::empty(),
    {
        let prices = PriceMap { quotes: Vec::new() };
        assert(prices@ =~= Map::<Seq<char>, P>::empty());
        prices
    }

    /// Sets the price for `key` and returns the one that it had before.
    pub fn insert(&mut self, key: String, price: P) -> (before: Option<P>)
        ensures
            final(self)@ == old(self)@.insert(key@, price),
            before == old(self)@.get(key@),
    {
        proof {
            use_type_invariant(&*self);
        }
        let at = self.position(key.as_str());
        let mut quotes: Vec<Quote<P>> = Vec::new();
        core::mem::swap(&mut quotes, &mut self.quotes);
        let before = match at {
            Some(i) => {
                let before = quotes[i].price;
                quotes[i].price = price;
                Some(before)
            },
            None => {
                quotes.push(Quote { key, price });
                None
            },
        };
        proof {
            let was = old(self).quotes@;
            assert forall|i: int, j: int|
                #![trigger quotes[i], quotes[j]]
                0 <= i < j < quotes.len() implies quotes[i].key@ != quotes[j].key@ by {
                if j < was.len() {
                    assert(was[i].key@ != was[j].key@);
                } else {
                    assert(!old(self).at(key@, i));
                }
            }
        }
        self.quotes = quotes;
        proof {
            let n = old(self).quotes.len() as int;
            if at is Some {
                assert forall|k: Seq<char>, j: int| self.at(k, j) == old(self).at(k, j) by {}
            } else {
                assert(self.at(key@, n));
                assert forall|k: Seq<char>, j: int|
                    self.at(k, j) == (old(self).at(k, j) || (k == key@ && j == n)) by {}
            }
            assert(self@ =~= old(self)@.insert(key@, price));
        }
        before
    }

    /// The price for `key`, if the map has one.
    pub fn get(&self, key: &str) -> (price: Option<P>)
        ensures
            price == self@.get(key@),
    {
        proof {
            use_type_invariant(self);
        }
        match self.position(key) {
            Some(i) => Some(self.quotes[i].price),
            None => None,
        }
    }
}

} // verus!
