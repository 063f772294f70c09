//! Things that happen at most once in a while.
//!
//! Times are nanoseconds of a clock that does not go back.

use vstd::prelude::*;
use crate::table::Table;
use crate::clock;

verus! {

/// When things last happened, by two names.
pub struct Cooldowns {
    last: Table<Table<u64>>,
}

impl View for Cooldowns {
    type V = Map<Seq<char>, Map<Seq<char>, u64>>;

    closed spec fn view(&self) -> Map<Seq<char>, Map<Seq<char>, u64>> {
        self.last@
    }
}

/// What happened under the first name.
pub open spec fn under(m: Map<Seq<char>, Map<Seq<char>, u64>>, a: Seq<char>) -> Map<Seq<char>, u64> {
    if m.dom().contains(a) {
        m[a]
    } else {
        Map::empty()
    }
}

/// Whether a thing happened less than `span` ago.
pub open spec fn recent(
    m: Map<Seq<char>, Map<Seq<char>, u64>>,
    a: Seq<char>,
    b: Seq<char>,
    now: u64,
    span: u64,
) -> bool {
    under(m, a).dom().contains(b) && clock::age(now, under(m, a)[b]) < span
}

/// The times once a thing happened at `now`.
pub open spec fn stamped(
    m: Map<Seq<char>, Map<Seq<char>, u64>>,
    a: Seq<char>,
    b: Seq<char>,
    now: u64,
) -> Map<Seq<char>, Map<Seq<char>, u64>> {
    m.insert(a, under(m, a).insert(b, now))
}

impl Cooldowns {
    /// Nothing happened yet.
    pub fn new() -> (r: Self)
        ensures
            r@ == Map::<Seq<char>, Map<Seq<char>, u64>>::empty(),
    {
        Cooldowns { last: Table::new() }
    }

    /// Whether a thing may happen: not where it did less than `span` ago. Where it may, it is
    /// taken to happen now.
    pub fn pass(&mut self, a: &str, b: &str, now: u64, span: u64) -> (r: bool)
        ensures
            r == !recent(old(self)@, a@, b@, now, span),
            final(self)@ == if r {
                stamped(old(self)@, a@, b@, now)
            } else {
                old(self)@
            },
    {
        let ghost before = self@;
        if let Some(inner) = self.last.get(a) {
            if let Some(t) = inner.get(b) {
                if clock::elapsed(now, *t) < span {
                    return false;
                }
            }
        }
        let mut inner: Table<u64> = match self.last.remove(a) {
            Some(t) => t,
            None => Table::new(),
        };
        inner.insert(b, now);
        self.last.insert(a, inner);
        proof {
            assert(self@ =~= stamped(before, a@, b@, now));
        }
        true
    }
}

/// What happened is on cooldown for the whole span after it.
pub proof fn law_stamp_starts_cooldown(
    m: Map<Seq<char>, Map<Seq<char>, u64>>,
    a: Seq<char>,
    b: Seq<char>,
    then: u64,
    now: u64,
    span: u64,
)
    ensures
        recent(stamped(m, a, b, then), a, b, now, span) <==> clock::age(now, then) < span,
{
}

/// What happens under one pair of names does not hold up another.
pub proof fn law_cooldowns_are_apart(
    m: Map<Seq<char>, Map<Seq<char>, u64>>,
    a: Seq<char>,
    b: Seq<char>,
    c: Seq<char>,
    d: Seq<char>,
    then: u64,
    now: u64,
    span: u64,
)
    requires
        a != c || b != d,
    ensures
        recent(stamped(m, a, b, then), c, d, now, span) == recent(m, c, d, now, span),
{
}

} // verus!
