//! The key-unique mapping that a successful parse returns.
//!
//! The mapping is a pair of parallel vectors with pairwise distinct keys; its
//! view is the finite map folded from its pairs in order, a later pair for a
//! key overwriting an earlier one.

use vstd::calc;
use vstd::prelude::*;

use crate::text::str_eq;

verus! {

/// Whether the keys of a pair sequence are pairwise distinct.
pub open spec fn keys_unique(ps: Seq<(Seq<char>, Seq<char>)>) -> bool {
    forall|i: int, j: int| 0 <= i < j < ps.len() ==> (#[trigger] ps[i]).0 != (#[trigger] ps[j]).0
}

/// Folds pair insertions over `acc`, first pair first.
pub open spec fn map_from(
    acc: Map<Seq<char>, Seq<char>>,
    ps: Seq<(Seq<char>, Seq<char>)>,
) -> Map<Seq<char>, Seq<char>>
    decreases ps.len(),
{
    if ps.len() == 0 {
        acc
    } else {
        map_from(acc.insert(ps.first().0, ps.first().1), ps.drop_first())
    }
}

/// The map that a pair sequence denotes: the last pair for a key wins.
pub open spec fn map_of_pairs(ps: Seq<(Seq<char>, Seq<char>)>) -> Map<Seq<char>, Seq<char>> {
    map_from(Map::empty(), ps)
}

/// A mapping from keys to values, keys pairwise distinct.
#[derive(Debug)]
pub struct EnvMap {
    keys: Vec<String>,
    vals: Vec<String>,
}

impl EnvMap {
    /// The pairs held, in storage order.
    pub closed spec fn pair_seq(self) -> Seq<(Seq<char>, Seq<char>)> {
        Seq::new(self.keys@.len(), |i: int| (self.keys@[i]@, self.vals@[i]@))
    }

    /// There are as many values as keys.
    pub closed spec fn lens_ok(self) -> bool {
        self.keys@.len() == self.vals@.len()
    }

    /// Well-formed: one value per key, keys pairwise distinct.
    pub open spec fn wf(self) -> bool {
        self.lens_ok() && keys_unique(self.pair_seq())
    }

    /// An empty mapping.
    pub fn new() -> (r: EnvMap)
        ensures
            r.wf(),
            r@ == Map::<Seq<char>, Seq<char>>::empty(),
            r.pair_seq() == Seq::<(Seq<char>, Seq<char>)>::empty(),
    {
        let r = EnvMap { keys: Vec::new(), vals: Vec::new() };
        proof {
            assert(r.pair_seq() =~= Seq::<(Seq<char>, Seq<char>)>::empty());
        }
        r
    }

    /// The number of entries.
    pub fn len(&self) -> (n: usize)
        ensures
            n == self.pair_seq().len(),
    {
        self.keys.len()
    }

    /// The key of the entry at a storage position.
    pub fn key_at(&self, i: usize) -> (k: &String)
        requires
            self.lens_ok(),
            i < self.pair_seq().len(),
        ensures
            k@ == self.pair_seq()[i as int].0,
    {
        &self.keys[i]
    }

    /// The value of the entry at a storage position.
    pub fn val_at(&self, i: usize) -> (v: &String)
        requires
            self.lens_ok(),
            i < self.pair_seq().len(),
        ensures
            v@ == self.pair_seq()[i as int].1,
    {
        &self.vals[i]
    }

    /// Looks a key up.
    pub fn get(&self, key: &str) -> (r: Option<&String>)
        requires
            self.wf(),
        ensures
            match r {
                Some(v) => self@.contains_key(key@) && v@ == self@[key@],
                None => !self@.contains_key(key@),
            },
    {
        proof {
            lemma_map_from_covers(Map::empty(), self.pair_seq(), key@);
        }
        let n = self.keys.len();
        let mut i: usize = 0;
        while i < n
            invariant
                self.wf(),
                n == self.pair_seq().len(),
                i <= n,
                forall|j: int| 0 <= j < i ==> (#[trigger] self.pair_seq()[j]).0 != key@,
            decreases n - i,
        {
            if str_eq(self.keys[i].as_str(), key) {
                proof {
                    lemma_pairs_in_map(self.pair_seq(), i as int);
                }
                return Some(&self.vals[i]);
            }
            i = i + 1;
        }
        None
    }

    /// Adds or overwrites an entry: the new value wins over any old one.
    pub fn insert(&mut self, key: String, value: String)
        requires
            old(self).wf(),
        ensures
            final(self).wf(),
            final(self)@ == old(self)@.insert(key@, value@),
            final(self).pair_seq() == old(self).pair_seq().push((key@, value@)) || exists|i: int|
                0 <= i < old(self).pair_seq().len() && (#[trigger] old(self).pair_seq()[i]).0
                    == key@ && final(self).pair_seq() == old(self).pair_seq().update(
                    i,
                    (key@, value@),
                ),
    {
        let n = self.keys.len();
        let mut i: usize = 0;
        while i < n
            invariant
                *self == *old(self),
                self.wf(),
                n == self.pair_seq().len(),
                i <= n,
                forall|j: int| 0 <= j < i ==> (#[trigger] self.pair_seq()[j]).0 != key@,
            decreases n - i,
        {
            if str_eq(self.keys[i].as_str(), key.as_str()) {
                let ghost old_ps = self.pair_seq();
                self.vals[i] = value;
                proof {
                    assert(self.pair_seq() =~= old_ps.update(i as int, (key@, value@)));
                    lemma_map_from_update(Map::empty(), old_ps, i as int, value@);
                    assert(keys_unique(self.pair_seq()));
                }
                return ;
            }
            i = i + 1;
        }
        let ghost old_ps = self.pair_seq();
        self.keys.push(key);
        self.vals.push(value);
        proof {
            assert(self.pair_seq() =~= old_ps.push((key@, value@)));
            lemma_map_from_push(Map::empty(), old_ps, (key@, value@));
            assert(keys_unique(self.pair_seq()));
        }
    }
}

impl View for EnvMap {
    type V = Map<Seq<char>, Seq<char>>;

    open spec fn view(&self) -> Map<Seq<char>, Seq<char>> {
        map_of_pairs(self.pair_seq())
    }
}

/// A key is in the folded map iff it is in the accumulator or among the
/// pairs; when among the pairs and the pairs' keys are distinct, the folded
/// map holds that pair's value.
proof fn lemma_map_from_covers(
    acc: Map<Seq<char>, Seq<char>>,
    ps: Seq<(Seq<char>, Seq<char>)>,
    k: Seq<char>,
)
    ensures
        map_from(acc, ps).contains_key(k) <==> acc.contains_key(k) || exists|i: int|
            0 <= i < ps.len() && (#[trigger] ps[i]).0 == k,
    decreases ps.len(),
{
    if ps.len() > 0 {
        lemma_map_from_covers(acc.insert(ps.first().0, ps.first().1), ps.drop_first(), k);
        if exists|i: int| 0 <= i < ps.len() && (#[trigger] ps[i]).0 == k {
            let i = choose|i: int| 0 <= i < ps.len() && (#[trigger] ps[i]).0 == k;
            if i > 0 {
                assert(ps.drop_first()[i - 1].0 == k);
            }
        }
        assert forall|i: int| 0 <= i < ps.drop_first().len() && (#[trigger] ps.drop_first()[i]).0
            == k implies exists|j: int| 0 <= j < ps.len() && (#[trigger] ps[j]).0 == k by {
            assert(ps[i + 1].0 == k);
        }
    }
}

/// With pairwise distinct keys, every pair is an entry of the folded map.
pub proof fn lemma_pairs_in_map(ps: Seq<(Seq<char>, Seq<char>)>, i: int)
    requires
        keys_unique(ps),
        0 <= i < ps.len(),
    ensures
        map_of_pairs(ps).contains_key(ps[i].0),
        map_of_pairs(ps)[ps[i].0] == ps[i].1,
{
    lemma_map_from_entry(Map::empty(), ps, i);
}

proof fn lemma_map_from_entry(acc: Map<Seq<char>, Seq<char>>, ps: Seq<(Seq<char>, Seq<char>)>, i: int)
    requires
        keys_unique(ps),
        0 <= i < ps.len(),
    ensures
        map_from(acc, ps).contains_key(ps[i].0),
        map_from(acc, ps)[ps[i].0] == ps[i].1,
    decreases ps.len(),
{
    let acc2 = acc.insert(ps.first().0, ps.first().1);
    if i == 0 {
        lemma_map_from_preserves(acc2, ps.drop_first(), ps[0].0);
        assert forall|j: int| 0 <= j < ps.drop_first().len() implies (
        #[trigger] ps.drop_first()[j]).0 != ps[0].0 by {
            assert(ps[j + 1].0 != ps[0].0);
        }
    } else {
        assert(ps.drop_first()[i - 1] == ps[i]);
        assert(keys_unique(ps.drop_first())) by {
            assert forall|a: int, b: int|
                0 <= a < b < ps.drop_first().len() implies (#[trigger] ps.drop_first()[a]).0 != (
            #[trigger] ps.drop_first()[b]).0 by {
                assert(ps[a + 1].0 != ps[b + 1].0);
            }
        }
        lemma_map_from_entry(acc2, ps.drop_first(), i - 1);
    }
}

/// A key that no pair holds keeps its accumulator entry through the fold.
proof fn lemma_map_from_preserves(
    acc: Map<Seq<char>, Seq<char>>,
    ps: Seq<(Seq<char>, Seq<char>)>,
    k: Seq<char>,
)
    requires
        forall|i: int| 0 <= i < ps.len() ==> (#[trigger] ps[i]).0 != k,
    ensures
        map_from(acc, ps).contains_key(k) == acc.contains_key(k),
        acc.contains_key(k) ==> map_from(acc, ps)[k] == acc[k],
    decreases ps.len(),
{
    if ps.len() > 0 {
        assert(ps[0].0 != k);
        assert forall|i: int| 0 <= i < ps.drop_first().len() implies (
        #[trigger] ps.drop_first()[i]).0 != k by {
            assert(ps[i + 1].0 != k);
        }
        lemma_map_from_preserves(acc.insert(ps.first().0, ps.first().1), ps.drop_first(), k);
    }
}

/// Folding one more pair at the end inserts it last.
proof fn lemma_map_from_push(
    acc: Map<Seq<char>, Seq<char>>,
    ps: Seq<(Seq<char>, Seq<char>)>,
    p: (Seq<char>, Seq<char>),
)
    ensures
        map_from(acc, ps.push(p)) == map_from(acc, ps).insert(p.0, p.1),
    decreases ps.len(),
{
    if ps.len() == 0 {
        let acc2 = acc.insert(p.0, p.1);
        assert(ps.push(p).first() == p);
        assert(ps.push(p).drop_first() =~= Seq::<(Seq<char>, Seq<char>)>::empty());
        assert(map_from(acc2, Seq::<(Seq<char>, Seq<char>)>::empty()) == acc2);
        assert(map_from(acc, ps.push(p)) == map_from(acc2, ps.push(p).drop_first()));
        assert(map_from(acc, ps) == acc);
    } else {
        assert(ps.push(p).first() == ps.first());
        assert(ps.push(p).drop_first() =~= ps.drop_first().push(p));
        lemma_map_from_push(acc.insert(ps.first().0, ps.first().1), ps.drop_first(), p);
    }
}

/// Inserting a key ahead of a fold that never touches it commutes with the
/// fold.
proof fn lemma_map_from_skip_key(
    acc: Map<Seq<char>, Seq<char>>,
    ps: Seq<(Seq<char>, Seq<char>)>,
    k: Seq<char>,
    v: Seq<char>,
)
    requires
        forall|i: int| 0 <= i < ps.len() ==> (#[trigger] ps[i]).0 != k,
    ensures
        map_from(acc.insert(k, v), ps) == map_from(acc, ps).insert(k, v),
    decreases ps.len(),
{
    if ps.len() == 0 {
    } else {
        let p = ps.first();
        assert(p.0 != k);
        assert(acc.insert(k, v).insert(p.0, p.1) =~= acc.insert(p.0, p.1).insert(k, v));
        assert forall|i: int| 0 <= i < ps.drop_first().len() implies (
        #[trigger] ps.drop_first()[i]).0 != k by {
            assert(ps[i + 1].0 != k);
        }
        lemma_map_from_skip_key(acc.insert(p.0, p.1), ps.drop_first(), k, v);
    }
}

/// Overwriting the value of one pair, keys distinct, inserts that key last.
proof fn lemma_map_from_update(
    acc: Map<Seq<char>, Seq<char>>,
    ps: Seq<(Seq<char>, Seq<char>)>,
    i: int,
    v: Seq<char>,
)
    requires
        keys_unique(ps),
        0 <= i < ps.len(),
    ensures
        map_from(acc, ps.update(i, (ps[i].0, v))) == map_from(acc, ps).insert(ps[i].0, v),
    decreases ps.len(),
{
    let k = ps[i].0;
    let ps2 = ps.update(i, (k, v));
    if i == 0 {
        assert(ps2.first() == (k, v));
        assert(ps2.drop_first() =~= ps.drop_first());
        assert forall|j: int| 0 <= j < ps.drop_first().len() implies (
        #[trigger] ps.drop_first()[j]).0 != k by {
            assert(ps[j + 1].0 != k);
        }
        lemma_map_from_skip_key(acc, ps.drop_first(), k, v);
        lemma_map_from_skip_key(acc, ps.drop_first(), k, ps[0].1);
        assert(acc.insert(k, v) =~= acc.insert(k, ps[0].1).insert(k, v));
        calc! {
            (==)
            map_from(acc, ps2); {}
            map_from(acc.insert(k, v), ps.drop_first()); {
                lemma_map_from_skip_key(acc, ps.drop_first(), k, v);
            }
            map_from(acc, ps.drop_first()).insert(k, v); {
                lemma_map_from_skip_key(acc, ps.drop_first(), k, ps[0].1);
                assert(map_from(acc, ps.drop_first()).insert(k, ps[0].1).insert(k, v)
                    =~= map_from(acc, ps.drop_first()).insert(k, v));
            }
            map_from(acc, ps.drop_first()).insert(k, ps[0].1).insert(k, v); {}
            map_from(acc.insert(k, ps[0].1), ps.drop_first()).insert(k, v); {}
            map_from(acc, ps).insert(k, v);
        }
    } else {
        assert(ps2.first() == ps.first());
        assert(ps2.drop_first() =~= ps.drop_first().update(i - 1, (k, v)));
        assert(ps.drop_first()[i - 1] == ps[i]);
        assert(keys_unique(ps.drop_first())) by {
            assert forall|a: int, b: int|
                0 <= a < b < ps.drop_first().len() implies (#[trigger] ps.drop_first()[a]).0 != (
            #[trigger] ps.drop_first()[b]).0 by {
                assert(ps[a + 1].0 != ps[b + 1].0);
            }
        }
        lemma_map_from_update(
            acc.insert(ps.first().0, ps.first().1),
            ps.drop_first(),
            i - 1,
            v,
        );
    }
}

} // verus!
