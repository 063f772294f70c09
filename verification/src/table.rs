//! Tables keyed by a string, in the order in which the keys came.

use vstd::prelude::*;
use crate::text;

verus! {

/// Values by string key. No key occurs twice; a new key goes to the end.
pub struct Table<V: View> {
    rows: Vec<(String, V)>,
}

/// The map that a sequence of rows stands for.
pub open spec fn rows_map<V>(rows: Seq<(Seq<char>, V)>) -> Map<Seq<char>, V>
    decreases rows.len(),
{
    if rows.len() == 0 {
        Map::empty()
    } else {
        rows_map(rows.drop_last()).insert(rows.last().0, rows.last().1)
    }
}

/// The views of pairs of a key and a value.
pub open spec fn pair_views<V: View>(rows: Seq<(String, V)>) -> Seq<(Seq<char>, V::V)> {
    rows.map_values(|r: (String, V)| (r.0@, r.1@))
}

/// No two rows have the same key.
pub open spec fn distinct_keys<V>(rows: Seq<(Seq<char>, V)>) -> bool {
    forall|i: int, j: int|
        0 <= i < j < rows.len() ==> (#[trigger] rows[i]).0 != (#[trigger] rows[j]).0
}

/// The rows list what a map holds, each key once.
pub open spec fn lists_map<V>(rows: Seq<(Seq<char>, V)>, m: Map<Seq<char>, V>) -> bool {
    distinct_keys(rows) && rows_map(rows) == m
}

/// The keys of the rows, in order.
pub open spec fn row_keys<V>(rows: Seq<(Seq<char>, V)>) -> Seq<Seq<char>> {
    rows.map_values(|r: (Seq<char>, V)| r.0)
}

/// The rows without the row of `key`.
pub open spec fn rows_without<V>(rows: Seq<(Seq<char>, V)>, key: Seq<char>) -> Seq<(Seq<char>, V)>
    decreases rows.len(),
{
    if rows.len() == 0 {
        rows
    } else if rows.last().0 == key {
        rows_without(rows.drop_last(), key)
    } else {
        rows_without(rows.drop_last(), key).push(rows.last())
    }
}

/// What a row map knows of a key: it is one of the rows' keys, with that row's value.
pub proof fn lemma_rows_map<V>(rows: Seq<(Seq<char>, V)>)
    requires
        distinct_keys(rows),
    ensures
        forall|i: int|
            0 <= i < rows.len() ==> #[trigger] rows_map(rows).dom().contains(rows[i].0)
                && rows_map(rows)[rows[i].0] == rows[i].1,
        forall|k: Seq<char>| #[trigger]
            rows_map(rows).dom().contains(k) ==> exists|i: int|
                0 <= i < rows.len() && (#[trigger] rows[i]).0 == k,
    decreases rows.len(),
{
    if rows.len() > 0 {
        let init = rows.drop_last();
        assert(distinct_keys(init)) by {
            assert forall|i: int, j: int| 0 <= i < j < init.len() implies (#[trigger] init[i]).0 != (
            #[trigger] init[j]).0 by {
                assert(init[i] == rows[i] && init[j] == rows[j]);
            }
        }
        lemma_rows_map(init);
        assert forall|i: int| 0 <= i < rows.len() implies #[trigger] rows_map(rows).dom().contains(
            rows[i].0,
        ) && rows_map(rows)[rows[i].0] == rows[i].1 by {
            if i < init.len() {
                assert(init[i] == rows[i]);
                assert(rows_map(init).dom().contains(init[i].0));
                assert(rows[i].0 != rows.last().0);
            }
        }
        assert forall|k: Seq<char>| #[trigger] rows_map(rows).dom().contains(k) implies exists|
            i: int,
        | 0 <= i < rows.len() && (#[trigger] rows[i]).0 == k by {
            if k == rows.last().0 {
                assert(rows[rows.len() - 1].0 == k);
            } else {
                assert(rows_map(init).dom().contains(k));
                let i = choose|i: int| 0 <= i < init.len() && (#[trigger] init[i]).0 == k;
                assert(rows[i].0 == k);
            }
        }
    }
}

proof fn lemma_rows_update<V>(rows: Seq<(Seq<char>, V)>, at: int, v: V)
    requires
        distinct_keys(rows),
        0 <= at < rows.len(),
    ensures
        rows_map(rows.update(at, (rows[at].0, v))) == rows_map(rows).insert(rows[at].0, v),
    decreases rows.len(),
{
    let changed = rows.update(at, (rows[at].0, v));
    let init = rows.drop_last();
    if at == rows.len() - 1 {
        assert(changed.drop_last() =~= init);
        assert(rows_map(changed) =~= rows_map(rows).insert(rows[at].0, v));
    } else {
        assert(changed.drop_last() =~= init.update(at, (init[at].0, v)));
        assert(distinct_keys(init)) by {
            assert forall|i: int, j: int| 0 <= i < j < init.len() implies (#[trigger] init[i]).0 != (
            #[trigger] init[j]).0 by {
                assert(init[i] == rows[i] && init[j] == rows[j]);
            }
        }
        lemma_rows_update(init, at, v);
        assert(rows[at].0 != rows.last().0);
        assert(rows_map(changed) =~= rows_map(rows).insert(rows[at].0, v));
    }
}

proof fn lemma_rows_remove<V>(rows: Seq<(Seq<char>, V)>, at: int)
    requires
        distinct_keys(rows),
        0 <= at < rows.len(),
    ensures
        rows_map(rows.remove(at)) == rows_map(rows).remove(rows[at].0),
        rows.remove(at) == rows_without(rows, rows[at].0),
        distinct_keys(rows.remove(at)),
    decreases rows.len(),
{
    let less = rows.remove(at);
    let init = rows.drop_last();
    assert(distinct_keys(init)) by {
        assert forall|i: int, j: int| 0 <= i < j < init.len() implies (#[trigger] init[i]).0 != (
        #[trigger] init[j]).0 by {
            assert(init[i] == rows[i] && init[j] == rows[j]);
        }
    }
    assert(distinct_keys(less)) by {
        assert forall|i: int, j: int| 0 <= i < j < less.len() implies (#[trigger] less[i]).0 != (
        #[trigger] less[j]).0 by {
            let a: int = if i < at {
                i
            } else {
                i + 1
            };
            let b: int = if j < at {
                j
            } else {
                j + 1
            };
            assert(less[i] == rows[a] && less[j] == rows[b]);
        }
    }
    lemma_rows_map(init);
    if at == rows.len() - 1 {
        assert(less =~= init);
        lemma_without_absent(init, rows[at].0);
        assert(!rows_map(init).dom().contains(rows[at].0));
        assert(rows_map(less) =~= rows_map(rows).remove(rows[at].0));
    } else {
        assert(less.drop_last() =~= init.remove(at));
        assert(less.last() == rows.last());
        lemma_rows_remove(init, at);
        assert(rows[at].0 != rows.last().0);
        assert(rows_map(less) =~= rows_map(rows).remove(rows[at].0));
        assert(less =~= rows_without(init, rows[at].0).push(rows.last()));
    }
}

/// A map of rows with distinct keys has as many keys as there are rows.
pub proof fn lemma_rows_count<V>(rows: Seq<(Seq<char>, V)>)
    requires
        distinct_keys(rows),
    ensures
        rows_map(rows).dom().finite(),
        rows_map(rows).dom().len() == rows.len(),
    decreases rows.len(),
{
    if rows.len() > 0 {
        let init = rows.drop_last();
        assert(distinct_keys(init)) by {
            assert forall|i: int, j: int| 0 <= i < j < init.len() implies (#[trigger] init[i]).0
                != (#[trigger] init[j]).0 by {
                assert(rows[i].0 != rows[j].0);
            }
        }
        lemma_rows_count(init);
        lemma_rows_map(init);
        assert(!rows_map(init).dom().contains(rows.last().0)) by {
            if rows_map(init).dom().contains(rows.last().0) {
                let i = choose|i: int| 0 <= i < init.len() && (#[trigger] init[i]).0 == rows.last().0;
                assert(rows[i].0 != rows[rows.len() - 1].0);
            }
        }
        assert(rows_map(rows).dom() =~= rows_map(init).dom().insert(rows.last().0));
    }
}

/// Removing a key that no row has changes nothing.
pub proof fn lemma_without_absent<V>(rows: Seq<(Seq<char>, V)>, key: Seq<char>)
    requires
        forall|i: int| 0 <= i < rows.len() ==> (#[trigger] rows[i]).0 != key,
    ensures
        rows_without(rows, key) == rows,
    decreases rows.len(),
{
    if rows.len() > 0 {
        let init = rows.drop_last();
        assert forall|i: int| 0 <= i < init.len() implies (#[trigger] init[i]).0 != key by {
            assert(init[i] == rows[i]);
        }
        lemma_without_absent(init, key);
        assert(init.push(rows.last()) =~= rows);
    }
}

impl<V: View> View for Table<V> {
    type V = Map<Seq<char>, V::V>;

    closed spec fn view(&self) -> Map<Seq<char>, V::V> {
        rows_map(self.listed())
    }
}

impl<V: View> Table<V> {
    /// The rows in order.
    pub closed spec fn listed(&self) -> Seq<(Seq<char>, V::V)> {
        pair_views(self.rows@)
    }

    #[verifier::type_invariant]
    spec fn keyed(self) -> bool {
        distinct_keys(self.listed())
    }

    /// A table without rows.
    pub fn new() -> (r: Self)
        ensures
            r@ == Map::<Seq<char>, V::V>::empty(),
            r.listed() == Seq::<(Seq<char>, V::V)>::empty(),
    {
        let r = Table { rows: Vec::new() };
        proof {
            assert(r.listed() =~= Seq::empty());
        }
        r
    }

    /// The number of rows.
    pub fn len(&self) -> (r: usize)
        ensures
            r == self.listed().len(),
            r == self@.dom().len(),
            self@.dom().finite(),
            self@ == rows_map(self.listed()),
            distinct_keys(self.listed()),
    {
        proof {
            use_type_invariant(self);
            lemma_rows_count(self.listed());
        }
        self.rows.len()
    }

    /// The key of row `i`.
    pub fn key_at(&self, i: usize) -> (r: &str)
        requires
            i < self.listed().len(),
        ensures
            r@ == self.listed()[i as int].0,
    {
        self.rows[i].0.as_str()
    }

    /// The value of row `i`.
    pub fn value_at(&self, i: usize) -> (r: &V)
        requires
            i < self.listed().len(),
        ensures
            r@ == self.listed()[i as int].1,
    {
        &self.rows[i].1
    }

    fn position(&self, key: &str) -> (r: Option<usize>)
        ensures
            match r {
                Some(i) => i < self.rows.len() && self.listed()[i as int].0 == key@,
                None => forall|i: int|
                    0 <= i < self.listed().len() ==> (#[trigger] self.listed()[i]).0 != key@,
            },
    {
        let mut i: usize = 0;
        while i < self.rows.len()
            invariant
                i <= self.rows.len(),
                forall|j: int| 0 <= j < i ==> (#[trigger] self.listed()[j]).0 != key@,
            decreases self.rows.len() - i,
        {
            if text::same(self.rows[i].0.as_str(), key) {
                return Some(i);
            }
            i = i + 1;
        }
        None
    }

    /// Whether the table has a row of `key`.
    pub fn contains_key(&self, key: &str) -> (r: bool)
        ensures
            r == self@.dom().contains(key@),
    {
        proof {
            use_type_invariant(self);
            lemma_rows_map(self.listed());
        }
        match self.position(key) {
            Some(i) => {
                proof {
                    assert(rows_map(self.listed()).dom().contains(self.listed()[i as int].0));
                }
                true
            },
            None => false,
        }
    }

    /// The value of `key`.
    pub fn get(&self, key: &str) -> (r: Option<&V>)
        ensures
            match r {
                Some(v) => self@.dom().contains(key@) && v@ == self@[key@],
                None => !self@.dom().contains(key@),
            },
    {
        proof {
            use_type_invariant(self);
            lemma_rows_map(self.listed());
        }
        match self.position(key) {
            Some(i) => {
                proof {
                    assert(rows_map(self.listed()).dom().contains(self.listed()[i as int].0));
                }
                Some(&self.rows[i].1)
            },
            None => None,
        }
    }

    /// Gives `key` the value `v`: in its row where it has one, else in a new last row.
    pub fn insert(&mut self, key: &str, v: V)
        ensures
            final(self)@ == old(self)@.insert(key@, v@),
            !old(self)@.dom().contains(key@) ==> final(self).listed() == old(self).listed().push(
                (key@, v@),
            ),
            old(self)@.dom().contains(key@) ==> row_keys(final(self).listed()) == row_keys(
                old(self).listed(),
            ),
            distinct_keys(final(self).listed()),
            final(self)@ == rows_map(final(self).listed()),
    {
        proof {
            use_type_invariant(&*self);
        }
        let ghost before = self.listed();
        let ghost value = v@;
        proof {
            lemma_rows_map(before);
        }
        let found = self.position(key);
        let mut rows: Vec<(String, V)> = Vec::new();
        std::mem::swap(&mut rows, &mut self.rows);
        match found {
            Some(i) => {
                proof {
                    assert(rows_map(before).dom().contains(before[i as int].0));
                    lemma_rows_update(before, i as int, value);
                }
                let name = rows[i].0.clone();
                rows.set(i, (name, v));
                proof {
                    let after = pair_views(rows@);
                    assert(after =~= before.update(i as int, (key@, value)));
                    assert(distinct_keys(after));
                    assert(row_keys(after) =~= row_keys(before));
                }
            },
            None => {
                rows.push((key.to_owned(), v));
                proof {
                    let after = pair_views(rows@);
                    assert(after =~= before.push((key@, value)));
                    assert(after.drop_last() =~= before);
                    assert(distinct_keys(after));
                }
            },
        }
        self.rows = rows;
    }

    /// A table of the given rows, in their order; a key that comes again replaces its value.
    pub fn from_rows(rows: Vec<(String, V)>) -> (r: Self)
        ensures
            r@ == rows_map(pair_views(rows@)),
            distinct_keys(pair_views(rows@)) ==> r.listed() == pair_views(rows@),
            distinct_keys(r.listed()),
            r@ == rows_map(r.listed()),
    {
        let mut left = rows;
        let ghost all = pair_views(rows@);
        let mut table: Table<V> = Table::new();
        let ghost mut done: int = 0;
        proof {
            assert(all.take(0) =~= Seq::empty());
            assert(all.skip(0) =~= all);
        }
        while left.len() > 0
            invariant
                0 <= done <= all.len(),
                pair_views(left@) == all.skip(done),
                table@ == rows_map(all.take(done)),
                distinct_keys(all) ==> table.listed() == all.take(done),
                distinct_keys(table.listed()),
                table@ == rows_map(table.listed()),
            decreases left.len(),
        {
            let ghost before = left@;
            let (key, value) = left.remove(0);
            proof {
                assert(pair_views(before).len() == before.len());
                assert(all.skip(done)[0] == all[done]);
                assert(pair_views(left@) =~= pair_views(before).drop_first());
                assert(all.skip(done).drop_first() =~= all.skip(done + 1));
                assert(all.take(done + 1).drop_last() =~= all.take(done));
                assert(all.take(done + 1) =~= all.take(done).push(all[done]));
                if distinct_keys(all) {
                    lemma_rows_map(table.listed());
                    if table@.dom().contains(key@) {
                        let i = choose|i: int|
                            0 <= i < table.listed().len() && (#[trigger] table.listed()[i]).0
                                == key@;
                        assert(all.take(done)[i] == all[i]);
                        assert(all[i].0 != all[done].0);
                    }
                }
            }
            table.insert(key.as_str(), value);
            proof {
                done = done + 1;
            }
        }
        proof {
            assert(pair_views(left@).len() == 0);
            assert(all.take(done) =~= all);
        }
        table
    }

    /// Takes the row of `key` out.
    pub fn remove(&mut self, key: &str) -> (r: Option<V>)
        ensures
            final(self)@ == old(self)@.remove(key@),
            final(self).listed() == rows_without(old(self).listed(), key@),
            match r {
                Some(v) => old(self)@.dom().contains(key@) && v@ == old(self)@[key@],
                None => !old(self)@.dom().contains(key@),
            },
    {
        proof {
            use_type_invariant(&*self);
        }
        let ghost before = self.listed();
        proof {
            lemma_rows_map(before);
        }
        match self.position(key) {
            Some(i) => {
                proof {
                    assert(rows_map(before).dom().contains(before[i as int].0));
                    lemma_rows_remove(before, i as int);
                }
                let mut rows: Vec<(String, V)> = Vec::new();
                std::mem::swap(&mut rows, &mut self.rows);
                let (_, v) = rows.remove(i);
                proof {
                    let after = pair_views(rows@);
                    assert(after =~= before.remove(i as int));
                }
                self.rows = rows;
                Some(v)
            },
            None => {
                proof {
                    lemma_without_absent(before, key@);
                    assert(rows_map(before) =~= rows_map(before).remove(key@));
                }
                None
            },
        }
    }
}

/// A set of strings.
pub struct NameSet {
    names: Vec<String>,
}

impl View for NameSet {
    type V = Set<Seq<char>>;

    closed spec fn view(&self) -> Set<Seq<char>> {
        text::views(self.names@).to_set()
    }
}

impl NameSet {
    #[verifier::type_invariant]
    spec fn distinct(self) -> bool {
        text::views(self.names@).no_duplicates()
    }

    /// The empty set.
    pub fn new() -> (r: Self)
        ensures
            r@ == Set::<Seq<char>>::empty(),
    {
        let r = NameSet { names: Vec::new() };
        proof {
            assert(r@ =~= Set::<Seq<char>>::empty());
        }
        r
    }

    /// The number of names.
    pub fn len(&self) -> (r: usize)
        ensures
            r == self@.len(),
            self@.finite(),
    {
        proof {
            use_type_invariant(self);
            text::views(self.names@).unique_seq_to_set();
        }
        self.names.len()
    }

    /// Whether a name is in the set.
    pub fn contains(&self, name: &str) -> (r: bool)
        ensures
            r == self@.contains(name@),
    {
        text::list_contains(&self.names, name)
    }

    /// Adds a name; whether it is new.
    pub fn insert(&mut self, name: &str) -> (r: bool)
        ensures
            final(self)@ == old(self)@.insert(name@),
            r == !old(self)@.contains(name@),
    {
        proof {
            use_type_invariant(&*self);
        }
        let ghost before = text::views(self.names@);
        if text::list_contains(&self.names, name) {
            proof {
                assert(before.to_set().insert(name@) =~= before.to_set());
            }
            false
        } else {
            let mut names: Vec<String> = Vec::new();
            std::mem::swap(&mut names, &mut self.names);
            names.push(name.to_owned());
            proof {
                let after = text::views(names@);
                assert(after =~= before.push(name@));
                assert forall|x: Seq<char>| after.to_set().contains(x) <==> before.to_set().insert(
                    name@,
                ).contains(x) by {
                    if before.contains(x) {
                        let i = choose|i: int| 0 <= i < before.len() && before[i] == x;
                        assert(after[i] == x);
                    }
                    assert(after[before.len() as int] == name@);
                }
                assert(after.to_set() =~= before.to_set().insert(name@));
                assert(after.no_duplicates());
            }
            self.names = names;
            true
        }
    }

    /// Removes a name; whether it was there.
    pub fn remove(&mut self, name: &str) -> (r: bool)
        ensures
            final(self)@ == old(self)@.remove(name@),
            r == old(self)@.contains(name@),
    {
        proof {
            use_type_invariant(&*self);
        }
        let ghost before = text::views(self.names@);
        let mut i: usize = 0;
        while i < self.names.len()
            invariant
                i <= self.names.len(),
                before == text::views(self.names@),
                before.no_duplicates(),
                self@ == before.to_set(),
                *self == *old(self),
                forall|k: int| 0 <= k < i ==> before[k] != name@,
            decreases self.names.len() - i,
        {
            if text::same(self.names[i].as_str(), name) {
                let mut names: Vec<String> = Vec::new();
                std::mem::swap(&mut names, &mut self.names);
                let _ = names.remove(i);
                proof {
                    assert(before[i as int] == name@);
                    let after = text::views(names@);
                    assert(after =~= before.remove(i as int));
                    assert forall|x: Seq<char>| after.to_set().contains(x)
                        <==> before.to_set().remove(name@).contains(x) by {
                        if before.contains(x) && x != name@ {
                            let k = choose|k: int| 0 <= k < before.len() && before[k] == x;
                            if k < i {
                                assert(after[k] == x);
                            } else {
                                assert(after[k - 1] == x);
                            }
                        }
                        if after.contains(x) {
                            let k = choose|k: int| 0 <= k < after.len() && after[k] == x;
                            if k < i {
                                assert(before[k] == x);
                            } else {
                                assert(before[k + 1] == x);
                            }
                        }
                    }
                    assert(after.to_set() =~= before.to_set().remove(name@));
                    assert(after.no_duplicates());
                }
                self.names = names;
                return true;
            }
            i = i + 1;
        }
        proof {
            assert(before.to_set().remove(name@) =~= before.to_set());
        }
        false
    }

    /// The names in increasing order.
    pub fn sorted(&self) -> (r: Vec<String>)
        ensures
            text::increasing(text::views(r@)),
            text::views(r@).to_set() == self@,
    {
        proof {
            use_type_invariant(self);
        }
        let mut out: Vec<String> = Vec::new();
        let mut i: usize = 0;
        let ghost all = text::views(self.names@);
        while i < self.names.len()
            invariant
                i <= self.names.len(),
                all == text::views(self.names@),
                all.no_duplicates(),
                text::increasing(text::views(out@)),
                text::views(out@).to_set() =~= all.take(i as int).to_set(),
            decreases self.names.len() - i,
        {
            let name = &self.names[i];
            let ghost done = text::views(out@);
            let mut at: usize = 0;
            while at < out.len() && text::comes_before(out[at].as_str(), name.as_str())
                invariant
                    at <= out.len(),
                    done == text::views(out@),
                    forall|k: int| 0 <= k < at ==> text::before(#[trigger] done[k], name@),
                decreases out.len() - at,
            {
                at = at + 1;
            }
            proof {
                assert(!all.take(i as int).contains(name@)) by {
                    if all.take(i as int).contains(name@) {
                        let k = choose|k: int|
                            0 <= k < i && all.take(i as int)[k] == name@;
                        assert(all[k] == all[i as int]);
                    }
                }
                assert(!done.to_set().contains(name@));
                if at < done.len() {
                    assert(done.contains(done[at as int]));
                    text::lemma_before_total(name@, done[at as int]);
                    assert forall|k: int| at < k < done.len() implies text::before(
                        name@,
                        #[trigger] done[k],
                    ) by {
                        text::lemma_before_transitive(name@, done[at as int], done[k]);
                    }
                }
            }
            out.insert(at, name.clone());
            proof {
                let now = text::views(out@);
                assert(now =~= done.insert(at as int, name@));
                let wider = all.take(i + 1);
                assert(wider =~= all.take(i as int).push(name@));
                assert forall|x: Seq<char>| now.to_set().contains(x) <==> wider.to_set().contains(x) by {
                    if now.contains(x) {
                        let k = choose|k: int| 0 <= k < now.len() && now[k] == x;
                        if k < at {
                            assert(done[k] == x);
                            assert(done.to_set().contains(x));
                        } else if k > at {
                            assert(done[k - 1] == x);
                            assert(done.to_set().contains(x));
                        } else {
                            assert(wider[i as int] == x);
                        }
                        if done.to_set().contains(x) {
                            let j = choose|j: int|
                                0 <= j < i && all.take(i as int)[j] == x;
                            assert(wider[j] == x);
                        }
                    }
                    if wider.contains(x) {
                        let j = choose|j: int| 0 <= j < i + 1 && wider[j] == x;
                        if j < i {
                            assert(all.take(i as int)[j] == x);
                            assert(done.to_set().contains(x));
                            let k = choose|k: int| 0 <= k < done.len() && done[k] == x;
                            if k < at {
                                assert(now[k] == x);
                            } else {
                                assert(now[k + 1] == x);
                            }
                        } else {
                            assert(now[at as int] == x);
                        }
                    }
                }
            }
            i = i + 1;
        }
        proof {
            assert(all.take(i as int) =~= all);
        }
        out
    }
}

} // verus!
