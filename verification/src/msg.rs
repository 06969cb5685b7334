//! Common quote format shared by every venue connector.

use vstd::prelude::*;

verus! {

/// The venues this process can subscribe to; the set is fixed at compile
/// time.
#[derive(Clone, Copy, PartialEq, Eq, Structural, Debug)]
pub enum Venue {
    Binance,
    Bitstamp,
}

impl Venue {
    /// Display name of the venue, as its feed labels itself.
    pub fn label(&self) -> (r: &'static str)
        ensures
            *self is Binance ==> r@ == "Binance"@,
            *self is Bitstamp ==> r@ == "Bitstamp"@,
    {
        match self {
            Venue::Binance => "Binance",
            Venue::Bitstamp => "Bitstamp",
        }
    }
}

/// One price level of one venue's book: fixed-point price and amount (see
/// `price::SCALE`), both non-negative by construction.
#[derive(Clone, Copy, PartialEq, Eq, Structural, Debug)]
pub struct Level {
    pub exchange: Venue,
    pub price: u64,
    pub amount: u64,
}

/// A full replacement view of one venue's book: every resident bid and ask
/// level, in the order the venue reported them.  Never a delta.
pub struct Levels {
    pub exchange: Venue,
    pub bids: Vec<Level>,
    pub asks: Vec<Level>,
}

/// Mathematical image of a `Levels` value.
pub ghost struct LevelsView {
    pub exchange: Venue,
    pub bids: Seq<Level>,
    pub asks: Seq<Level>,
}

impl View for Levels {
    type V = LevelsView;

    open spec fn view(&self) -> LevelsView {
        LevelsView { exchange: self.exchange, bids: self.bids@, asks: self.asks@ }
    }
}

impl Clone for Levels {
    fn clone(&self) -> (r: Self)
        ensures
            r@ == self@,
    {
        let mut bids: Vec<Level> = Vec::new();
        let mut asks: Vec<Level> = Vec::new();
        let mut i: usize = 0;
        while i < self.bids.len()
            invariant
                i <= self.bids@.len(),
                bids@ == self.bids@.subrange(0, i as int),
            decreases self.bids@.len() - i,
        {
            bids.push(self.bids[i]);
            proof {
                assert(bids@ =~= self.bids@.subrange(0, i + 1 as int));
            }
            i = i + 1;
        }
        let mut j: usize = 0;
        while j < self.asks.len()
            invariant
                j <= self.asks@.len(),
                asks@ == self.asks@.subrange(0, j as int),
            decreases self.asks@.len() - j,
        {
            asks.push(self.asks[j]);
            proof {
                assert(asks@ =~= self.asks@.subrange(0, j + 1 as int));
            }
            j = j + 1;
        }
        proof {
            assert(bids@ =~= self.bids@);
            assert(asks@ =~= self.asks@);
        }
        Levels { exchange: self.exchange, bids, asks }
    }
}

} // verus!
