//! The bounded rolling window of recent prices and its moving average.

use crate::price::Price;
use std::collections::VecDeque;
use vstd::prelude::*;

verus! {

/// The arithmetic mean of one or more prices, kept exactly as the fraction
/// `total / count` in price units.
#[derive(Clone, Copy, Debug, PartialEq, Eq, Structural)]
pub struct MovingAverage {
    /// The sum of the averaged prices.
    pub total: u128,
    /// How many prices were averaged.
    pub count: u64,
}

/// The most recent prices, oldest first, never more than `capacity` of them.
pub struct RollingWindow {
    prices: VecDeque<Price>,
    capacity: usize,
}

impl View for RollingWindow {
    type V = Seq<Price>;

    closed spec fn view(&self) -> Seq<Price> {
        self.prices@
    }
}

/// The sum of `prices`, in price units.
pub open spec fn price_sum(prices: Seq<Price>) -> nat
    decreases prices.len(),
{
    if prices.len() == 0 {
        0
    } else {
        price_sum(prices.drop_last()) + prices.last().units as nat
    }
}

/// The contents of a window of the given capacity after `price` has been
/// appended to `window`: the price becomes the newest element, and the oldest
/// one leaves if the window would otherwise outgrow its capacity.
pub open spec fn appended(window: Seq<Price>, price: Price, capacity: nat) -> Seq<Price> {
    let grown = window.push(price);
    if grown.len() > capacity {
        grown.drop_first()
    } else {
        grown
    }
}

/// The contents of a window of the given capacity that held `window` and to
/// which `values` were then appended one by one.
pub open spec fn after_appends(window: Seq<Price>, capacity: nat, values: Seq<Price>) -> Seq<
    Price,
>
    decreases values.len(),
{
    if values.len() == 0 {
        window
    } else {
        appended(
            after_appends(window, capacity, values.drop_last()),
            values.last(),
            capacity,
        )
    }
}

/// The arithmetic mean of `prices`, or nothing if there are none. The sum
/// and the count fit their fields for every window a machine can hold.
pub open spec fn mean_of(prices: Seq<Price>) -> Option<MovingAverage> {
    if prices.len() == 0 {
        None
    } else {
        Some(MovingAverage { total: price_sum(prices) as u128, count: prices.len() as u64 })
    }
}

/// The last `count` elements of `values`, or all of them if there are fewer.
pub open spec fn latest(values: Seq<Price>, count: nat) -> Seq<Price> {
    if values.len() <= count {
        values
    } else {
        values.skip(values.len() - count)
    }
}

impl MovingAverage {
    /// The average of the single price `price`.
    pub fn of_price(price: Price) -> (average: MovingAverage)
        ensures
            average.total == price.units,
            average.count == 1,
    {
        MovingAverage { total: price.units as u128, count: 1 }
    }

    /// Whether this average lies strictly above `price`, that is
    /// `price < total / count` over the rationals.
    pub open spec fn spec_exceeds(&self, price: Price) -> bool {
        price.units * self.count < self.total
    }

    /// Whether this average lies strictly above `price`, decided without
    /// rounding.
    #[verifier::when_used_as_spec(spec_exceeds)]
    pub fn exceeds(&self, price: Price) -> (above: bool)
        ensures
            above == self.spec_exceeds(price),
    {
        price.times(self.count) < self.total
    }
}

impl RollingWindow {
    /// The largest number of prices the window holds at once.
    pub closed spec fn spec_capacity(&self) -> usize {
        self.capacity
    }

    /// The window never holds more prices than its capacity.
    pub closed spec fn wf(&self) -> bool {
        self.prices@.len() <= self.capacity
    }

    /// An empty window that will hold at most `capacity` prices.
    pub fn new(capacity: usize) -> (window: RollingWindow)
        ensures
            window.wf(),
            window@ == Seq::<Price>::empty(),
            window.capacity() == capacity,
    {
        RollingWindow { prices: VecDeque::new(), capacity }
    }

    /// The largest number of prices the window holds at once.
    #[verifier::when_used_as_spec(spec_capacity)]
    pub fn capacity(&self) -> (capacity: usize)
        ensures
            capacity == self.spec_capacity(),
    {
        self.capacity
    }

    /// The number of prices currently held.
    pub fn len(&self) -> (count: usize)
        ensures
            count == self@.len(),
    {
        self.prices.len()
    }

    /// Whether the window holds no price.
    pub fn is_empty(&self) -> (empty: bool)
        ensures
            empty == (self@.len() == 0),
    {
        self.prices.len() == 0
    }

    /// The price at `index`, counted from the oldest, if there is one.
    pub fn get(&self, index: usize) -> (price: Option<Price>)
        ensures
            index < self@.len() ==> price == Some(self@[index as int]),
            index >= self@.len() ==> price.is_none(),
    {
        if index < self.prices.len() {
            Some(self.prices[index])
        } else {
            None
        }
    }

    /// Adds `price` as the newest element and evicts the oldest one if the
    /// window would otherwise exceed its capacity. No price is rejected.
    pub fn append(&mut self, price: Price)
        requires
            old(self).wf(),
        ensures
            final(self).wf(),
            final(self).capacity() == old(self).capacity(),
            final(self)@ == appended(old(self)@, price, old(self).capacity() as nat),
            final(self)@.len() <= final(self).capacity(),
    {
        self.prices.push_back(price);
        if self.prices.len() > self.capacity {
            self.prices.pop_front();
        }
    }

    /// The arithmetic mean of the prices held, summed oldest to newest, or
    /// nothing if the window is empty.
    pub fn average(&self) -> (average: Option<MovingAverage>)
        ensures
            match average {
                None => self@.len() == 0,
                Some(mean) => {
                    &&& self@.len() > 0
                    &&& mean.total == price_sum(self@)
                    &&& mean.count == self@.len()
                },
            },
            average == mean_of(self@),
    {
        let count = self.prices.len();
        if count == 0 {
            return None;
        }
        let mut total: u128 = 0;
        let mut index: usize = 0;
        while index < count
            invariant
                index <= count == self.prices@.len(),
                total == price_sum(self.prices@.take(index as int)),
                total <= index * 0xffff_ffff_ffff_ffff,
            decreases count - index,
        {
            assert(self.prices@.take(index + 1).drop_last() =~= self.prices@.take(index as int));
            total = total + self.prices[index].units as u128;
            index = index + 1;
        }
        assert(self.prices@.take(count as int) =~= self.prices@);
        Some(MovingAverage { total, count: count as u64 })
    }
}

/// A window of capacity `capacity` that started empty and received `values`
/// one by one never holds more than `capacity` prices, and holds exactly the
/// last `min(values.len(), capacity)` of them in the order they arrived. This
/// is so after every single append, not only after the last.
pub proof fn lemma_window_holds_latest(capacity: nat, values: Seq<Price>)
    ensures
        after_appends(Seq::empty(), capacity, values) == latest(values, capacity),
        after_appends(Seq::empty(), capacity, values).len() == if values.len() <= capacity {
            values.len()
        } else {
            capacity
        },
        forall|seen: int|
            0 <= seen <= values.len() ==> {
                &&& (#[trigger] after_appends(Seq::empty(), capacity, values.take(seen))).len()
                    <= capacity
                &&& after_appends(Seq::empty(), capacity, values.take(seen)) == latest(
                    values.take(seen),
                    capacity,
                )
            },
{
    let empty = Seq::<Price>::empty();
    lemma_appends_keep_latest(empty, capacity, values);
    assert(empty + values =~= values);
    assert forall|seen: int| 0 <= seen <= values.len() implies {
        &&& (#[trigger] after_appends(empty, capacity, values.take(seen))).len() <= capacity
        &&& after_appends(empty, capacity, values.take(seen)) == latest(
            values.take(seen),
            capacity,
        )
    } by {
        lemma_appends_keep_latest(empty, capacity, values.take(seen));
        assert(empty + values.take(seen) =~= values.take(seen));
    }
}

/// Appending `values` to a window that respects its capacity leaves the last
/// `capacity` elements of everything the window has held and received, in
/// order of arrival.
pub proof fn lemma_appends_keep_latest(window: Seq<Price>, capacity: nat, values: Seq<Price>)
    requires
        window.len() <= capacity,
    ensures
        after_appends(window, capacity, values) == latest(window + values, capacity),
        after_appends(window, capacity, values).len() <= capacity,
    decreases values.len(),
{
    if values.len() == 0 {
        assert(window + values =~= window);
    } else {
        lemma_appends_keep_latest(window, capacity, values.drop_last());
        assert((window + values).drop_last() =~= window + values.drop_last());
        assert(after_appends(window, capacity, values) =~= latest(window + values, capacity));
    }
}

} // verus!
