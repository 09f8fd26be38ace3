use vstd::prelude::*;

use crate::address::Address;

verus! {

/// An asset as the library sees it: its chain address, its display symbol,
/// and how many decimal digits its smallest denomination carries.
pub struct Asset {
    pub address: Address,
    pub symbol: String,
    pub decimals: u8,
}

impl Asset {
    /// Decimals stay within the 18 digits the price normalization covers.
    pub open spec fn wf(&self) -> bool {
        self.decimals <= 18
    }

    /// An asset is accepted only with decimals the normalization covers;
    /// anything else is a configuration fault to surface at startup.
    pub fn new(address: Address, symbol: String, decimals: u8) -> (a: Option<Asset>)
        ensures
            a is Some <==> decimals <= 18,
            a matches Some(asset) ==> asset.address == address && asset.symbol@ == symbol@
                && asset.decimals == decimals && asset.wf(),
    {
        if decimals <= 18 {
            Some(Asset { address, symbol, decimals })
        } else {
            None
        }
    }
}

/// A base asset priced in a quote asset.  The two are always distinct.
pub struct TrackedPair {
    pub base: Asset,
    pub quote: Asset,
}

impl TrackedPair {
    pub open spec fn wf(&self) -> bool {
        self.base.wf() && self.quote.wf() && self.base.address != self.quote.address
    }

    /// A pair exists only for two well-formed, distinct assets; a pair of an
    /// asset with itself is refused, a configuration fault to surface at
    /// startup.
    pub fn new(base: Asset, quote: Asset) -> (p: Option<TrackedPair>)
        ensures
            p is Some <==> (base.decimals <= 18 && quote.decimals <= 18 && base.address
                != quote.address),
            p matches Some(pair) ==> pair.base == base && pair.quote == quote && pair.wf(),
    {
        if base.decimals <= 18 && quote.decimals <= 18 && !(base.address == quote.address) {
            Some(TrackedPair { base, quote })
        } else {
            None
        }
    }
}

/// Reads a factory contract's answer to a pool lookup: the all-zero address
/// means "this venue has no pool for the pair" and must be treated as a
/// skip, never as a usable contract address.
pub fn resolve_pool(raw: Address) -> (r: Option<Address>)
    ensures
        r is None <==> raw.is_zero_spec(),
        r matches Some(a) ==> a == raw,
{
    if raw.is_zero() {
        None
    } else {
        Some(raw)
    }
}

/// One venue's answer to pair resolution: the pool address, or nothing when
/// the venue has no pool for the pair.
#[derive(Clone, Copy, Debug)]
pub struct VenueResolution {
    pub venue: u64,
    pub pool: Option<Address>,
}

struct RegistryEntry {
    base: Address,
    quote: Address,
    resolutions: Vec<VenueResolution>,
}

/// A process-lifetime cache of pair resolutions: pool addresses never change,
/// so each pair is resolved once and looked up every later cycle.
pub struct PairRegistry {
    entries: Vec<RegistryEntry>,
}

impl PairRegistry {
    /// Each pair appears at most once.
    pub closed spec fn wf(&self) -> bool {
        forall|i: int, j: int|
            0 <= i < j < self.entries@.len() ==> !(#[trigger] self.entries@[i].base
                == self.entries@[j].base && self.entries@[i].quote
                == #[trigger] self.entries@[j].quote)
    }

    pub closed spec fn has_spec(&self, base: Address, quote: Address) -> bool {
        exists|i: int|
            0 <= i < self.entries@.len() && #[trigger] self.entries@[i].base == base
                && self.entries@[i].quote == quote
    }

    pub closed spec fn lookup_spec(&self, base: Address, quote: Address) -> Seq<VenueResolution>
        recommends
            self.has_spec(base, quote),
    {
        let i = choose|i: int|
            0 <= i < self.entries@.len() && #[trigger] self.entries@[i].base == base
                && self.entries@[i].quote == quote;
        self.entries@[i].resolutions@
    }

    pub fn new() -> (r: Self)
        ensures
            r.wf(),
            forall|b: Address, q: Address| !r.has_spec(b, q),
    {
        PairRegistry { entries: Vec::new() }
    }

    /// The cached resolutions for a pair, if it was ever resolved.
    pub fn get(&self, base: &Address, quote: &Address) -> (r: Option<&Vec<VenueResolution>>)
        requires
            self.wf(),
        ensures
            r is Some <==> self.has_spec(*base, *quote),
            r matches Some(v) ==> v@ == self.lookup_spec(*base, *quote),
    {
        let mut i: usize = 0;
        while i < self.entries.len()
            invariant
                i <= self.entries@.len(),
                self.wf(),
                forall|j: int|
                    0 <= j < i ==> !(#[trigger] self.entries@[j].base == *base
                        && self.entries@[j].quote == *quote),
            decreases self.entries@.len() - i,
        {
            if self.entries[i].base == *base && self.entries[i].quote == *quote {
                proof {
                    let c = choose|k: int|
                        0 <= k < self.entries@.len() && #[trigger] self.entries@[k].base == *base
                            && self.entries@[k].quote == *quote;
                    if c != i {
                        assert(!(self.entries@[if c < i {
                            c
                        } else {
                            i as int
                        }].base == self.entries@[if c < i {
                            i as int
                        } else {
                            c
                        }].base && self.entries@[if c < i {
                            c
                        } else {
                            i as int
                        }].quote == self.entries@[if c < i {
                            i as int
                        } else {
                            c
                        }].quote));
                    }
                }
                return Some(&self.entries[i].resolutions);
            }
            i = i + 1;
        }
        None
    }

    /// Caches a pair's resolutions.  Resolution happens once per pair, so an
    /// already-cached pair is never inserted again.
    pub fn insert(&mut self, base: Address, quote: Address, resolutions: Vec<VenueResolution>)
        requires
            old(self).wf(),
            !old(self).has_spec(base, quote),
        ensures
            final (self).wf(),
            final (self).has_spec(base, quote),
            final (self).lookup_spec(base, quote) == resolutions@,
            forall|b: Address, q: Address|
                #[trigger] final (self).has_spec(b, q) == (old(self).has_spec(b, q) || (b == base
                    && q == quote)),
            forall|b: Address, q: Address|
                old(self).has_spec(b, q) ==> #[trigger] final (self).lookup_spec(b, q) == old(
                    self,
                ).lookup_spec(b, q),
    {
        let ghost olds = self.entries@;
        let n = self.entries.len();
        self.entries.push(RegistryEntry { base, quote, resolutions });
        proof {
            let news = self.entries@;
            assert(news == olds.push(RegistryEntry { base, quote, resolutions: resolutions }));
            assert forall|i: int, j: int| 0 <= i < j < news.len() implies !(#[trigger] news[i].base
                == news[j].base && news[i].quote == #[trigger] news[j].quote) by {
                if j < n {
                    assert(olds[i].base == news[i].base && olds[j].quote == news[j].quote);
                } else {
                    assert(news[j].base == base && news[j].quote == quote);
                    if news[i].base == base && news[i].quote == quote {
                        assert(old(self).has_spec(base, quote));
                    }
                }
            }
            assert(news[n as int].base == base && news[n as int].quote == quote);
            assert forall|b: Address, q: Address| #[trigger]
                final (self).has_spec(b, q) == (old(self).has_spec(b, q) || (b == base && q
                    == quote)) by {
                if old(self).has_spec(b, q) {
                    let w = choose|i: int|
                        0 <= i < olds.len() && #[trigger] olds[i].base == b && olds[i].quote == q;
                    assert(news[w].base == b && news[w].quote == q);
                }
                if final (self).has_spec(b, q) && !(b == base && q == quote) {
                    let w = choose|i: int|
                        0 <= i < news.len() && #[trigger] news[i].base == b && news[i].quote == q;
                    assert(w < n);
                    assert(olds[w].base == b && olds[w].quote == q);
                }
            }
            assert forall|b: Address, q: Address| old(self).has_spec(b, q) implies #[trigger] final (self).lookup_spec(b, q) == old(self).lookup_spec(b, q) by {
                let w1 = choose|i: int|
                    0 <= i < olds.len() && #[trigger] olds[i].base == b && olds[i].quote == q;
                assert(news[w1].base == b && news[w1].quote == q);
                let w2 = choose|i: int|
                    0 <= i < news.len() && #[trigger] news[i].base == b && news[i].quote == q;
                if w2 != w1 {
                    let lo = if w1 < w2 { w1 } else { w2 };
                    let hi = if w1 < w2 { w2 } else { w1 };
                    assert(!(news[lo].base == news[hi].base && news[lo].quote == news[hi].quote));
                }
                assert(w2 < n);
            }
            let w3 = choose|i: int|
                0 <= i < news.len() && #[trigger] news[i].base == base && news[i].quote == quote;
            if w3 != n {
                let lo = if w3 < n { w3 } else { n as int };
                let hi = if w3 < n { n as int } else { w3 };
                assert(!(news[lo].base == news[hi].base && news[lo].quote == news[hi].quote));
            }
        }
    }
}

} // verus!
