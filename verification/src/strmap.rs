//! A read-only map of string data, used for query parameters, path
//! parameters and stage variables.

use vstd::prelude::*;
use vstd::map::*;
use vstd::string::StringExecFns;
use crate::strutil::str_eq;

verus! {

/// The deep view of a vector of string pairs.
pub open spec fn str_pairs_view(v: Seq<(String, String)>) -> Seq<(Seq<char>, Seq<char>)> {
    Seq::new(v.len(), |i: int| (v[i].0@, v[i].1@))
}

/// The association that a pair sequence denotes: a later entry for the same
/// key wins.
pub open spec fn pairs_to_map(es: Seq<(Seq<char>, Seq<char>)>) -> Map<Seq<char>, Seq<char>>
    decreases es.len(),
{
    if es.len() == 0 {
        Map::empty()
    } else {
        pairs_to_map(es.drop_last()).insert(es.last().0, es.last().1)
    }
}

/// The value a pair sequence associates with `k`, the last entry winning.
pub open spec fn pairs_lookup(es: Seq<(Seq<char>, Seq<char>)>, k: Seq<char>) -> Option<Seq<char>>
    decreases es.len(),
{
    if es.len() == 0 {
        None
    } else if es.last().0 == k {
        Some(es.last().1)
    } else {
        pairs_lookup(es.drop_last(), k)
    }
}

/// True when no key occurs twice among the pairs.
pub open spec fn unique_keys(es: Seq<(Seq<char>, Seq<char>)>) -> bool {
    forall|i: int, j: int| 0 <= i < j < es.len() ==> es[i].0 != es[j].0
}

/// Looking a key up among the pairs agrees with the denoted association.
pub proof fn lemma_pairs_lookup_is_map(es: Seq<(Seq<char>, Seq<char>)>, k: Seq<char>)
    ensures
        pairs_to_map(es).contains_key(k) <==> pairs_lookup(es, k) is Some,
        pairs_lookup(es, k) matches Some(v) ==> pairs_to_map(es)[k] == v,
    decreases es.len(),
{
    if es.len() > 0 {
        lemma_pairs_lookup_is_map(es.drop_last(), k);
    }
}

/// A key is in the denoted association exactly when some pair carries it.
pub proof fn lemma_map_dom_keys(es: Seq<(Seq<char>, Seq<char>)>, k: Seq<char>)
    ensures
        pairs_to_map(es).contains_key(k) <==> exists|j: int| 0 <= j < es.len() && es[j].0 == k,
    decreases es.len(),
{
    if es.len() > 0 {
        lemma_map_dom_keys(es.drop_last(), k);
        if es.last().0 == k {
            assert(es[es.len() - 1].0 == k);
        } else if pairs_to_map(es).contains_key(k) {
            let j = choose|j: int| 0 <= j < es.drop_last().len() && es.drop_last()[j].0 == k;
            assert(es[j].0 == k);
        } else if exists|j: int| 0 <= j < es.len() && es[j].0 == k {
            let j = choose|j: int| 0 <= j < es.len() && es[j].0 == k;
            assert(es.drop_last()[j].0 == k);
        }
    }
}

/// Each pair of a unique-keyed sequence is exactly what the denoted
/// association yields: iterating the pairs and looking keys up agree.
pub proof fn lemma_entries_agree_with_map(es: Seq<(Seq<char>, Seq<char>)>, i: int)
    requires
        unique_keys(es),
        0 <= i < es.len(),
    ensures
        pairs_to_map(es).contains_key(es[i].0),
        pairs_to_map(es)[es[i].0] == es[i].1,
    decreases es.len(),
{
    if i < es.len() - 1 {
        assert(es.drop_last()[i] == es[i]);
        lemma_entries_agree_with_map(es.drop_last(), i);
        assert(es.last().0 != es[i].0);
    }
}

/// Scanning one more pair from the front extends a lookup.
proof fn lemma_pairs_lookup_take(es: Seq<(Seq<char>, Seq<char>)>, k: Seq<char>, i: int)
    requires
        0 <= i < es.len(),
    ensures
        pairs_lookup(es.take(i + 1), k) == if es[i].0 == k {
            Some(es[i].1)
        } else {
            pairs_lookup(es.take(i), k)
        },
{
    assert(es.take(i + 1).drop_last() =~= es.take(i));
    assert(es.take(i + 1).last() == es[i]);
}

/// `acc` with the value at the first occurrence of `k` replaced by `v`, or
/// with `(k, v)` appended when `k` does not occur.
pub open spec fn upsert(acc: Seq<(Seq<char>, Seq<char>)>, k: Seq<char>, v: Seq<char>) -> Seq<
    (Seq<char>, Seq<char>),
>
    decreases acc.len(),
{
    if acc.len() == 0 {
        seq![(k, v)]
    } else if acc.first().0 == k {
        seq![(k, v)] + acc.drop_first()
    } else {
        seq![acc.first()] + upsert(acc.drop_first(), k, v)
    }
}

/// The unique-keyed pair sequence that a pair list denotes: names keep the
/// position of their first occurrence, the last value wins.
pub open spec fn collapse(hs: Seq<(Seq<char>, Seq<char>)>) -> Seq<(Seq<char>, Seq<char>)>
    decreases hs.len(),
{
    if hs.len() == 0 {
        Seq::empty()
    } else {
        upsert(collapse(hs.drop_last()), hs.last().0, hs.last().1)
    }
}

/// Replacing at the first occurrence is an update in place.
pub(crate) proof fn lemma_upsert_found(
    acc: Seq<(Seq<char>, Seq<char>)>,
    k: Seq<char>,
    v: Seq<char>,
    i: int,
)
    requires
        0 <= i < acc.len(),
        forall|j: int| 0 <= j < i ==> acc[j].0 != k,
        acc[i].0 == k,
    ensures
        upsert(acc, k, v) == acc.update(i, (k, v)),
    decreases i,
{
    if i == 0 {
        assert(upsert(acc, k, v) =~= acc.update(0, (k, v)));
    } else {
        assert(forall|j: int| 0 <= j < i - 1 ==> acc.drop_first()[j].0 != k);
        lemma_upsert_found(acc.drop_first(), k, v, i - 1);
        assert(seq![acc.first()] + acc.drop_first().update(i - 1, (k, v)) =~= acc.update(
            i,
            (k, v),
        ));
    }
}

/// A name that does not occur is appended.
pub(crate) proof fn lemma_upsert_missing(
    acc: Seq<(Seq<char>, Seq<char>)>,
    k: Seq<char>,
    v: Seq<char>,
)
    requires
        forall|j: int| 0 <= j < acc.len() ==> acc[j].0 != k,
    ensures
        upsert(acc, k, v) == acc.push((k, v)),
    decreases acc.len(),
{
    if acc.len() == 0 {
        assert(upsert(acc, k, v) =~= acc.push((k, v)));
    } else {
        lemma_upsert_missing(acc.drop_first(), k, v);
        assert(seq![acc.first()] + acc.drop_first().push((k, v)) =~= acc.push((k, v)));
    }
}

/// Updating the pair that carries `k` inserts into the denoted association.
proof fn lemma_update_map(acc: Seq<(Seq<char>, Seq<char>)>, i: int, v: Seq<char>)
    requires
        unique_keys(acc),
        0 <= i < acc.len(),
    ensures
        pairs_to_map(acc.update(i, (acc[i].0, v))) == pairs_to_map(acc).insert(acc[i].0, v),
    decreases acc.len(),
{
    let k = acc[i].0;
    let upd = acc.update(i, (k, v));
    if i == acc.len() - 1 {
        assert(upd.drop_last() =~= acc.drop_last());
        assert(upd.last() == (k, v));
        assert(pairs_to_map(acc.drop_last()).insert(k, acc.last().1).insert(k, v)
            =~= pairs_to_map(acc.drop_last()).insert(k, v));
    } else {
        assert(upd.drop_last() =~= acc.drop_last().update(i, (k, v)));
        assert(upd.last() == acc.last());
        assert(acc.drop_last()[i] == acc[i]);
        lemma_update_map(acc.drop_last(), i, v);
        assert(acc.last().0 != k);
        assert(pairs_to_map(acc.drop_last()).insert(k, v).insert(acc.last().0, acc.last().1)
            =~= pairs_to_map(acc.drop_last()).insert(acc.last().0, acc.last().1).insert(k, v));
    }
}

/// On a unique-keyed sequence `upsert` keeps the keys unique and inserts
/// into the denoted association.
proof fn lemma_upsert_unique(acc: Seq<(Seq<char>, Seq<char>)>, k: Seq<char>, v: Seq<char>)
    requires
        unique_keys(acc),
    ensures
        unique_keys(upsert(acc, k, v)),
        pairs_to_map(upsert(acc, k, v)) == pairs_to_map(acc).insert(k, v),
{
    if exists|j: int| 0 <= j < acc.len() && acc[j].0 == k {
        let i = choose|i: int| 0 <= i < acc.len() && acc[i].0 == k;
        assert(forall|j: int| 0 <= j < i ==> acc[j].0 != k);
        lemma_upsert_found(acc, k, v, i);
        lemma_update_map(acc, i, v);
        assert((k, v) == (acc[i].0, v));
        assert(acc.update(i, (k, v)) == acc.update(i, (acc[i].0, v)));
        assert(unique_keys(acc.update(i, (k, v))));
    } else {
        lemma_upsert_missing(acc, k, v);
        assert(forall|j: int| 0 <= j < acc.len() ==> acc.push((k, v))[j] == acc[j]);
        assert(unique_keys(acc.push((k, v))));
        assert(acc.push((k, v)).drop_last() =~= acc);
        assert(acc.push((k, v)).last() == (k, v));
    }
}

/// Collapsing keeps each key once and denotes the same association.
pub proof fn lemma_collapse_props(es: Seq<(Seq<char>, Seq<char>)>)
    ensures
        unique_keys(collapse(es)),
        pairs_to_map(collapse(es)) == pairs_to_map(es),
    decreases es.len(),
{
    if es.len() == 0 {
        assert(unique_keys(collapse(es)));
    } else {
        lemma_collapse_props(es.drop_last());
        lemma_upsert_unique(collapse(es.drop_last()), es.last().0, es.last().1);
    }
}

/// A unique-keyed sequence is already collapsed.
pub proof fn lemma_collapse_fixed(es: Seq<(Seq<char>, Seq<char>)>)
    requires
        unique_keys(es),
    ensures
        collapse(es) == es,
    decreases es.len(),
{
    if es.len() > 0 {
        lemma_collapse_fixed(es.drop_last());
        assert(forall|j: int| 0 <= j < es.drop_last().len() ==> es.drop_last()[j].0
            != es.last().0);
        lemma_upsert_missing(es.drop_last(), es.last().0, es.last().1);
        assert(es.drop_last().push(es.last()) =~= es);
    }
}

/// Replace the first entry named `k`, or append `(k, v)`.
pub(crate) fn upsert_in(out: &mut Vec<(String, String)>, k: String, v: String)
    ensures
        str_pairs_view(final(out)@) == upsert(str_pairs_view(old(out)@), k@, v@),
{
    let ghost acc = str_pairs_view(out@);
    let n = out.len();
    let mut i: usize = 0;
    while i < n
        invariant
            i <= n,
            n == out@.len(),
            out@ == old(out)@,
            acc == str_pairs_view(out@),
            forall|j: int| 0 <= j < i ==> acc[j].0 != k@,
        decreases n - i,
    {
        if out[i].0.eq(&k) {
            out.set(i, (k, v));
            proof {
                lemma_upsert_found(acc, k@, v@, i as int);
                assert(str_pairs_view(out@) =~= acc.update(i as int, (k@, v@)));
            }
            return ;
        }
        i += 1;
    }
    out.push((k, v));
    proof {
        lemma_upsert_missing(acc, k@, v@);
        assert(str_pairs_view(out@) =~= acc.push((k@, v@)));
    }
}

/// A read-only view into a map of string data.
///
/// The map is immutable once built, and every way of building one keeps
/// each key exactly once: constructing from a pair list collapses repeated
/// names, the last value winning.
#[derive(Debug)]
pub struct StrMap {
    entries: Vec<(String, String)>,
}

impl StrMap {
    /// The key/value pairs, in iteration order.
    pub closed spec fn entries_view(&self) -> Seq<(Seq<char>, Seq<char>)> {
        str_pairs_view(self.entries@)
    }
}

impl View for StrMap {
    type V = Map<Seq<char>, Seq<char>>;

    open spec fn view(&self) -> Map<Seq<char>, Seq<char>> {
        pairs_to_map(self.entries_view())
    }
}

impl StrMap {
    /// The empty map.
    pub fn empty() -> (r: StrMap)
        ensures
            r.entries_view() == Seq::<(Seq<char>, Seq<char>)>::empty(),
            r@ == Map::<Seq<char>, Seq<char>>::empty(),
            unique_keys(r.entries_view()),
    {
        let r = StrMap { entries: Vec::new() };
        proof {
            assert(r.entries_view() =~= Seq::<(Seq<char>, Seq<char>)>::empty());
        }
        r
    }

    /// Return a named value where available.
    pub fn get<'a>(&'a self, key: &str) -> (r: Option<&'a str>)
        ensures
            match r {
                Some(v) => self@.contains_key(key@) && v@ == self@[key@],
                None => !self@.contains_key(key@),
            },
    {
        let ghost ev = self.entries_view();
        let k = String::from_str(key);
        let n = self.entries.len();
        let mut i: usize = n;
        proof {
            assert(ev.take(n as int) =~= ev);
        }
        while i > 0
            invariant
                i <= n,
                n == self.entries@.len(),
                k@ == key@,
                ev == self.entries_view(),
                pairs_lookup(ev, key@) == pairs_lookup(ev.take(i as int), key@),
            decreases i,
        {
            i -= 1;
            proof {
                lemma_pairs_lookup_take(ev, key@, i as int);
            }
            if self.entries[i].0.eq(&k) {
                proof {
                    lemma_pairs_lookup_is_map(ev, key@);
                }
                return Some(self.entries[i].1.as_str());
            }
        }
        proof {
            assert(ev.take(0) =~= Seq::<(Seq<char>, Seq<char>)>::empty());
            lemma_pairs_lookup_is_map(ev, key@);
        }
        None
    }

    /// Return true if the underlying map is empty.
    pub fn is_empty(&self) -> (r: bool)
        ensures
            r == (self.entries_view().len() == 0),
            r == (self@ == Map::<Seq<char>, Seq<char>>::empty()),
    {
        proof {
            if self.entries_view().len() == 0 {
                assert(self@ =~= Map::<Seq<char>, Seq<char>>::empty());
            } else {
                assert(self@.contains_key(self.entries_view().last().0));
            }
        }
        self.entries.len() == 0
    }

    /// Return an iterator over keys and values.
    pub fn iter<'a>(&'a self) -> (r: StrMapIter<'a>)
        ensures
            r.map == self,
            r.pos == 0,
    {
        StrMapIter { map: self, pos: 0 }
    }
}

impl Default for StrMap {
    /// The default map is empty.
    fn default() -> (r: Self)
        ensures
            r.entries_view() == Seq::<(Seq<char>, Seq<char>)>::empty(),
            r@ == Map::<Seq<char>, Seq<char>>::empty(),
            unique_keys(r.entries_view()),
    {
        StrMap::empty()
    }
}

impl Clone for StrMap {
    /// A clone denotes the same association, pair for pair.
    fn clone(&self) -> (r: Self)
        ensures
            r.entries_view() == self.entries_view(),
            r@ == self@,
    {
        let mut out: Vec<(String, String)> = Vec::new();
        let n = self.entries.len();
        let mut i: usize = 0;
        while i < n
            invariant
                i <= n,
                n == self.entries@.len(),
                out@.len() == i,
                forall|j: int| 0 <= j < i ==> out@[j] == self.entries@[j],
            decreases n - i,
        {
            let pair = (self.entries[i].0.clone(), self.entries[i].1.clone());
            out.push(pair);
            i += 1;
        }
        let r = StrMap { entries: out };
        proof {
            assert(r.entries@ =~= self.entries@);
            assert(r.entries_view() =~= self.entries_view());
        }
        r
    }
}

/// True when every key among `a`'s pairs maps in `b` to `a`'s value for it.
fn covers(a: &StrMap, b: &StrMap) -> (r: bool)
    ensures
        r == (forall|j: int|
            0 <= j < a.entries_view().len() ==> (b@.contains_key(a.entries_view()[j].0) && b@[
                a.entries_view()[j].0
            ] == a@[a.entries_view()[j].0])),
{
    let ghost ev = a.entries_view();
    let n = a.entries.len();
    let mut i: usize = 0;
    while i < n
        invariant
            i <= n,
            n == a.entries@.len(),
            ev == a.entries_view(),
            forall|j: int| 0 <= j < i ==> (b@.contains_key(ev[j].0) && b@[ev[j].0] == a@[
                ev[j].0
            ]),
        decreases n - i,
    {
        let key = a.entries[i].0.as_str();
        proof {
            assert(ev[i as int].0 == key@);
            lemma_map_dom_keys(ev, key@);
        }
        match a.get(key) {
            None => {
                proof {
                    assert(false);
                }
                return false;
            },
            Some(x) => {
                match b.get(key) {
                    None => {
                        return false;
                    },
                    Some(y) => {
                        if !str_eq(x, y) {
                            return false;
                        }
                    },
                }
            },
        }
        i += 1;
    }
    true
}

impl PartialEq for StrMap {
    /// Maps are equal when they denote the same association, whatever
    /// order their entries were built in.
    fn eq(&self, other: &StrMap) -> (r: bool) {
        let fwd = covers(self, other);
        if !fwd {
            proof {
                let j = choose|j: int|
                    0 <= j < self.entries_view().len() && !(other@.contains_key(
                        self.entries_view()[j].0,
                    ) && other@[self.entries_view()[j].0] == self@[self.entries_view()[j].0]);
                lemma_map_dom_keys(self.entries_view(), self.entries_view()[j].0);
                lemma_pairs_lookup_is_map(self.entries_view(), self.entries_view()[j].0);
                assert(self@.contains_key(self.entries_view()[j].0));
                assert(self@ != other@);
            }
            return false;
        }
        let bwd = covers(other, self);
        if !bwd {
            proof {
                let j = choose|j: int|
                    0 <= j < other.entries_view().len() && !(self@.contains_key(
                        other.entries_view()[j].0,
                    ) && self@[other.entries_view()[j].0] == other@[other.entries_view()[j].0]);
                lemma_map_dom_keys(other.entries_view(), other.entries_view()[j].0);
                assert(other@.contains_key(other.entries_view()[j].0));
                assert(self@ != other@);
            }
            return false;
        }
        proof {
            assert forall|k: Seq<char>| self@.dom().contains(k) == other@.dom().contains(
                k,
            ) by {
                if self@.contains_key(k) {
                    lemma_map_dom_keys(self.entries_view(), k);
                    let j = choose|j: int|
                        0 <= j < self.entries_view().len() && self.entries_view()[j].0 == k;
                    assert(other@.contains_key(self.entries_view()[j].0));
                }
                if other@.contains_key(k) {
                    lemma_map_dom_keys(other.entries_view(), k);
                    let j = choose|j: int|
                        0 <= j < other.entries_view().len() && other.entries_view()[j].0 == k;
                    assert(self@.contains_key(other.entries_view()[j].0));
                }
            };
            assert(self@.dom() =~= other@.dom());
            assert forall|k: Seq<char>| self@.dom().contains(k) implies self@[k] == other@[
                k
            ] by {
                lemma_map_dom_keys(self.entries_view(), k);
                let j = choose|j: int|
                    0 <= j < self.entries_view().len() && self.entries_view()[j].0 == k;
                assert(other@[self.entries_view()[j].0] == self@[self.entries_view()[j].0]);
            };
            assert(self@ =~= other@);
        }
        true
    }
}

impl vstd::std_specs::cmp::PartialEqSpecImpl for StrMap {
    open spec fn obeys_eq_spec() -> bool {
        true
    }

    open spec fn eq_spec(&self, other: &StrMap) -> bool {
        self@ == other@
    }
}

impl From<Vec<(String, String)>> for StrMap {
    /// Wrap a finalized pair list; a repeated name is kept once, at its
    /// first position, the last value winning, so the entries match the
    /// association the list denotes.
    fn from(pairs: Vec<(String, String)>) -> (r: StrMap)
        ensures
            r.entries_view() == collapse(str_pairs_view(pairs@)),
            r@ == pairs_to_map(str_pairs_view(pairs@)),
            unique_keys(r.entries_view()),
    {
        let ghost pv = str_pairs_view(pairs@);
        let mut flat: Vec<(String, String)> = Vec::new();
        proof {
            assert(str_pairs_view(flat@) =~= Seq::<(Seq<char>, Seq<char>)>::empty());
            assert(pv.take(0) =~= Seq::<(Seq<char>, Seq<char>)>::empty());
        }
        let n = pairs.len();
        let mut i: usize = 0;
        while i < n
            invariant
                i <= n,
                n == pairs@.len(),
                pv == str_pairs_view(pairs@),
                str_pairs_view(flat@) == collapse(pv.take(i as int)),
            decreases n - i,
        {
            upsert_in(&mut flat, pairs[i].0.clone(), pairs[i].1.clone());
            proof {
                assert(pv.take(i + 1).drop_last() =~= pv.take(i as int));
                assert(pv.take(i + 1).last() == pv[i as int]);
            }
            i += 1;
        }
        proof {
            assert(pv.take(n as int) =~= pv);
            lemma_collapse_props(pv);
        }
        let r = StrMap { entries: flat };
        proof {
            assert(r.entries_view() == str_pairs_view(flat@));
        }
        r
    }
}

impl vstd::std_specs::convert::FromSpecImpl<Vec<(String, String)>> for StrMap {
    open spec fn obeys_from_spec() -> bool {
        false
    }

    open spec fn from_spec(v: Vec<(String, String)>) -> StrMap {
        arbitrary()
    }
}

/// A read-only cursor over a [`StrMap`]'s key and value pairs.
///
/// Every map is built with unique keys, so each key is yielded exactly
/// once, and [`lemma_entries_agree_with_map`] says the yielded value is the
/// one `get` resolves.
pub struct StrMapIter<'a> {
    /// The map being walked.
    pub map: &'a StrMap,
    /// How many pairs have been handed out.
    pub pos: usize,
}

impl<'a> StrMapIter<'a> {
    /// The next key/value pair, in entry order; `None` once exhausted.
    pub fn next(&mut self) -> (r: Option<(&'a str, &'a str)>)
        ensures
            final(self).map == old(self).map,
            match r {
                Some(p) => old(self).pos < old(self).map.entries_view().len() && p.0@ == old(
                    self,
                ).map.entries_view()[old(self).pos as int].0 && p.1@ == old(
                    self,
                ).map.entries_view()[old(self).pos as int].1 && final(self).pos == old(self).pos
                    + 1,
                None => old(self).pos >= old(self).map.entries_view().len() && final(self).pos
                    == old(self).pos,
            },
    {
        if self.pos < self.map.entries.len() {
            let k = self.map.entries[self.pos].0.as_str();
            let v = self.map.entries[self.pos].1.as_str();
            self.pos += 1;
            Some((k, v))
        } else {
            None
        }
    }
}

} // verus!
