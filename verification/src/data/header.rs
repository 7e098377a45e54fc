//! Finite maps keyed by text, and the header of a data file: the map from
//! column names to column positions.

use vstd::prelude::*;
use crate::text::{join, join_strings, trim};
use crate::utils::get_csv_cols::{csv_cols, lemma_csv_cols_of_joined};

verus! {

/// A finite map from names to values, kept as a list of entries in which
/// no name occurs twice.
pub struct TextMap<V> {
    entries: Vec<(String, V)>,
}

/// The header of a data file: the position of each named column.
pub type DataHeader = TextMap<usize>;

impl<V> View for TextMap<V> {
    type V = Map<Seq<char>, V>;

    closed spec fn view(&self) -> Map<Seq<char>, V> {
        entries_map(self.entries@)
    }
}

/// The map that a list of distinct (name, position) entries describes.
pub open spec fn entries_map<V>(es: Seq<(String, V)>) -> Map<Seq<char>, V> {
    Map::new(
        |k: Seq<char>| exists|i: int| 0 <= i < es.len() && (#[trigger] es[i]).0@ == k,
        |k: Seq<char>| es[choose|i: int| 0 <= i < es.len() && (#[trigger] es[i]).0@ == k].1,
    )
}

/// The header that a header line with columns `cols` describes: each name
/// maps to the position of its last occurrence.
pub open spec fn columns_header(cols: Seq<Seq<char>>) -> Map<Seq<char>, usize>
    decreases cols.len(),
{
    if cols.len() == 0 {
        Map::empty()
    } else {
        columns_header(cols.drop_last()).insert(cols.last(), (cols.len() - 1) as usize)
    }
}

/// `r` is the largest position in `m`, or 0 when `m` holds none larger.
pub open spec fn is_max_position(m: Map<Seq<char>, usize>, r: usize) -> bool {
    &&& forall|k: Seq<char>| #[trigger] m.contains_key(k) ==> m[k] <= r
    &&& r == 0 || exists|k: Seq<char>| #[trigger] m.contains_key(k) && m[k] == r
}

/// The largest position in `m`, or 0 when `m` holds none larger.
pub open spec fn max_position_of(m: Map<Seq<char>, usize>) -> usize {
    choose|r: usize| is_max_position(m, r)
}

/// There is at most one largest position.
pub proof fn lemma_max_position_unique(m: Map<Seq<char>, usize>, a: usize, b: usize)
    requires
        is_max_position(m, a),
        is_max_position(m, b),
    ensures
        a == b,
{
    if a != 0 {
        let k = choose|k: Seq<char>| #[trigger] m.contains_key(k) && m[k] == a;
        assert(a <= b);
    }
    if b != 0 {
        let k = choose|k: Seq<char>| #[trigger] m.contains_key(k) && m[k] == b;
        assert(b <= a);
    }
}

/// `names` lists every name of `m` exactly once, in order of position.
pub open spec fn ordered_names(m: Map<Seq<char>, usize>, names: Seq<Seq<char>>) -> bool {
    &&& names.no_duplicates()
    &&& forall|k: Seq<char>| m.contains_key(k) <==> names.contains(k)
    &&& forall|i: int, j: int|
        0 <= i < j < names.len() ==> m[#[trigger] names[i]] <= m[#[trigger] names[j]]
}

/// The entries are in order of position.
spec fn sorted_by_pos(out: Seq<(String, usize)>) -> bool {
    forall|a: int, b: int| 0 <= a < b < out.len() ==> (#[trigger] out[a]).1 <= (#[trigger] out[b]).1
}

/// Every entry of `out` is one of the first `i` entries of `es`.
spec fn drawn_from(out: Seq<(String, usize)>, es: Seq<(String, usize)>, i: int) -> bool {
    forall|a: int|
        0 <= a < out.len() ==> exists|k: int|
            0 <= k < i && (#[trigger] es[k]).0@ == (#[trigger] out[a]).0@ && es[k].1 == out[a].1
}

/// Each of the first `i` entries of `es` has its name in `out`.
spec fn covers(out: Seq<(String, usize)>, es: Seq<(String, usize)>, i: int) -> bool {
    forall|k: int|
        0 <= k < i ==> exists|a: int|
            0 <= a < out.len() && (#[trigger] out[a]).0@ == (#[trigger] es[k]).0@
}

/// Inserting the next entry of `es` where its position belongs keeps `out`
/// sorted, free of repeated names, and made of exactly the entries seen.
proof fn lemma_sorted_insert(
    out: Seq<(String, usize)>,
    es: Seq<(String, usize)>,
    i: int,
    p: int,
    e: (String, usize),
)
    requires
        0 <= i < es.len(),
        distinct_names(es),
        sorted_by_pos(out),
        distinct_names(out),
        drawn_from(out, es, i),
        covers(out, es, i),
        0 <= p <= out.len(),
        forall|a: int| 0 <= a < p ==> (#[trigger] out[a]).1 <= e.1,
        p < out.len() ==> out[p].1 > e.1,
        e.0@ == es[i].0@,
        e.1 == es[i].1,
    ensures
        sorted_by_pos(out.insert(p, e)),
        distinct_names(out.insert(p, e)),
        drawn_from(out.insert(p, e), es, i + 1),
        covers(out.insert(p, e), es, i + 1),
{
    let n = out.insert(p, e);
    out.insert_ensures(p, e);
    assert forall|a: int| 0 <= a < n.len() implies (a < p ==> n[a] == out[a]) && (a > p ==> n[a]
        == out[a - 1]) by {
        if a > p {
            assert(n[(a - 1) + 1] == out[a - 1]);
        }
    }
    assert forall|a: int, b: int| 0 <= a < b < n.len() implies (#[trigger] n[a]).1 <= (
    #[trigger] n[b]).1 by {
        if b < p {
        } else if b == p {
        } else if a < p {
            assert(out[a].1 <= out[b - 1].1);
        } else if a == p {
            assert(out[p].1 <= out[b - 1].1);
        } else {
            assert(out[a - 1].1 <= out[b - 1].1);
        }
    }
    // The new name is not among the names already in `out`.
    assert forall|a: int| 0 <= a < out.len() implies (#[trigger] out[a]).0@ != e.0@ by {
        let k = choose|k: int|
            0 <= k < i && (#[trigger] es[k]).0@ == out[a].0@ && es[k].1 == out[a].1;
        assert(es[k].0@ != es[i].0@);
    }
    assert forall|a: int, b: int|
        0 <= a < n.len() && 0 <= b < n.len() && a != b implies (#[trigger] n[a]).0@ != (
        #[trigger] n[b]).0@ by {
        if a != p && b != p {
            let a0 = if a < p {
                a
            } else {
                a - 1
            };
            let b0 = if b < p {
                b
            } else {
                b - 1
            };
            assert(n[a] == out[a0] && n[b] == out[b0]);
        } else if a == p {
            let b0 = if b < p {
                b
            } else {
                b - 1
            };
            assert(n[b] == out[b0]);
        } else {
            let a0 = if a < p {
                a
            } else {
                a - 1
            };
            assert(n[a] == out[a0]);
        }
    }
    assert forall|a: int| 0 <= a < n.len() implies exists|k: int|
        0 <= k < i + 1 && (#[trigger] es[k]).0@ == (#[trigger] n[a]).0@ && es[k].1 == n[a].1 by {
        if a == p {
            assert(es[i].0@ == n[a].0@ && es[i].1 == n[a].1);
        } else {
            let a0 = if a < p {
                a
            } else {
                a - 1
            };
            assert(n[a] == out[a0]);
            let k = choose|k: int|
                0 <= k < i && (#[trigger] es[k]).0@ == out[a0].0@ && es[k].1 == out[a0].1;
            assert(es[k].0@ == n[a].0@ && es[k].1 == n[a].1);
        }
    }
    assert forall|k: int| 0 <= k < i + 1 implies exists|a: int|
        0 <= a < n.len() && (#[trigger] n[a]).0@ == (#[trigger] es[k]).0@ by {
        if k == i {
            assert(n[p].0@ == es[k].0@);
        } else {
            let a = choose|a: int| 0 <= a < out.len() && (#[trigger] out[a]).0@ == es[k].0@;
            if a < p {
                assert(n[a] == out[a]);
            } else {
                assert(n[a + 1] == out[a]);
            }
        }
    }
}

/// No name occurs twice among the entries.
pub open spec fn distinct_names<V>(es: Seq<(String, V)>) -> bool {
    forall|i: int, j: int|
        0 <= i < es.len() && 0 <= j < es.len() && i != j ==> (#[trigger] es[i]).0@ != (
        #[trigger] es[j]).0@
}

/// What the entries of a header with distinct names say of each name.
proof fn lemma_entries_map<V>(es: Seq<(String, V)>)
    requires
        distinct_names(es),
    ensures
        forall|i: int|
            0 <= i < es.len() ==> #[trigger] entries_map(es).contains_key(es[i].0@)
                && entries_map(es)[es[i].0@] == es[i].1,
        forall|k: Seq<char>|
            entries_map(es).contains_key(k) <==> exists|i: int|
                0 <= i < es.len() && (#[trigger] es[i]).0@ == k,
{
    assert forall|i: int| 0 <= i < es.len() implies #[trigger] entries_map(es).contains_key(
        es[i].0@,
    ) && entries_map(es)[es[i].0@] == es[i].1 by {
        let k = es[i].0@;
        assert(entries_map(es).dom().contains(k));
        let j = choose|j: int| 0 <= j < es.len() && (#[trigger] es[j]).0@ == k;
        assert(j == i);
    }
}

/// Renaming an entry to the name it already has keeps the names distinct
/// and sets that name's position.
proof fn lemma_entries_update<V>(es: Seq<(String, V)>, i: int, e: (String, V))
    requires
        distinct_names(es),
        0 <= i < es.len(),
        es[i].0@ == e.0@,
    ensures
        distinct_names(es.update(i, e)),
        entries_map(es.update(i, e)) == entries_map(es).insert(e.0@, e.1),
{
    let ns = es.update(i, e);
    assert forall|a: int, b: int|
        0 <= a < ns.len() && 0 <= b < ns.len() && a != b implies (#[trigger] ns[a]).0@ != (
        #[trigger] ns[b]).0@ by {
        assert(ns[a].0@ == es[a].0@);
        assert(ns[b].0@ == es[b].0@);
    }
    lemma_entries_map(es);
    lemma_entries_map(ns);
    assert forall|k: Seq<char>| entries_map(ns).contains_key(k) <==> entries_map(
        es,
    ).insert(e.0@, e.1).contains_key(k) by {
        if entries_map(ns).contains_key(k) {
            let j = choose|j: int| 0 <= j < ns.len() && (#[trigger] ns[j]).0@ == k;
            assert(es[j].0@ == k);
        }
        if entries_map(es).contains_key(k) {
            let j = choose|j: int| 0 <= j < es.len() && (#[trigger] es[j]).0@ == k;
            assert(ns[j].0@ == k);
        }
    }
    assert forall|k: Seq<char>| #[trigger]
        entries_map(ns).contains_key(k) implies entries_map(ns)[k] == entries_map(es).insert(
        e.0@,
        e.1,
    )[k] by {
        let j = choose|j: int| 0 <= j < ns.len() && (#[trigger] ns[j]).0@ == k;
        if j != i {
            assert(es[j].0@ == k);
        }
    }
    assert(entries_map(ns) =~= entries_map(es).insert(e.0@, e.1));
}

/// Adding an entry under a new name keeps the names distinct and maps
/// the new name to its position.
proof fn lemma_entries_push<V>(es: Seq<(String, V)>, e: (String, V))
    requires
        distinct_names(es),
        forall|k: int| 0 <= k < es.len() ==> (#[trigger] es[k]).0@ != e.0@,
    ensures
        distinct_names(es.push(e)),
        entries_map(es.push(e)) == entries_map(es).insert(e.0@, e.1),
{
    let ns = es.push(e);
    assert forall|a: int, b: int|
        0 <= a < ns.len() && 0 <= b < ns.len() && a != b implies (#[trigger] ns[a]).0@ != (
        #[trigger] ns[b]).0@ by {
        if a < es.len() {
            assert(ns[a] == es[a]);
        }
        if b < es.len() {
            assert(ns[b] == es[b]);
        }
    }
    lemma_entries_map(es);
    lemma_entries_map(ns);
    assert(ns[es.len() as int] == e);
    assert forall|k: Seq<char>| entries_map(ns).contains_key(k) <==> entries_map(
        es,
    ).insert(e.0@, e.1).contains_key(k) by {
        if entries_map(ns).contains_key(k) {
            let j = choose|j: int| 0 <= j < ns.len() && (#[trigger] ns[j]).0@ == k;
            if j < es.len() {
                assert(es[j] == ns[j]);
            }
        }
        if entries_map(es).contains_key(k) {
            let j = choose|j: int| 0 <= j < es.len() && (#[trigger] es[j]).0@ == k;
            assert(ns[j] == es[j]);
        }
    }
    assert forall|k: Seq<char>| #[trigger]
        entries_map(ns).contains_key(k) implies entries_map(ns)[k] == entries_map(es).insert(
        e.0@,
        e.1,
    )[k] by {
        let j = choose|j: int| 0 <= j < ns.len() && (#[trigger] ns[j]).0@ == k;
        if j < es.len() {
            assert(es[j] == ns[j]);
        }
    }
    assert(entries_map(ns) =~= entries_map(es).insert(e.0@, e.1));
}

impl<V> TextMap<V> {
    #[verifier::type_invariant]
    spec fn inv(&self) -> bool {
        distinct_names(self.entries@)
    }

    /// An empty map.
    pub fn new() -> (h: Self)
        ensures
            h@ == Map::<Seq<char>, V>::empty(),
    {
        let h = TextMap { entries: Vec::new() };
        assert(h@ =~= Map::<Seq<char>, V>::empty());
        h
    }

    /// The number of names.
    pub fn len(&self) -> (n: usize)
        ensures
            n == self@.len(),
    {
        proof {
            use_type_invariant(self);
            self.lemma_len();
        }
        self.entries.len()
    }

    proof fn lemma_len(&self)
        requires
            distinct_names(self.entries@),
        ensures
            self@.dom().finite(),
            self@.len() == self.entries@.len(),
    {
        let es = self.entries@;
        lemma_entries_map(es);
        let names = es.map_values(|e: (String, V)| e.0@);
        assert forall|i: int, j: int|
            0 <= i < names.len() && 0 <= j < names.len() && i != j implies names[i]
            != names[j] by {
            assert(es[i].0@ == names[i] && es[j].0@ == names[j]);
        }
        assert(names.no_duplicates());
        names.unique_seq_to_set();
        assert(self@.dom() =~= names.to_set()) by {
            assert forall|k: Seq<char>| self@.dom().contains(k) implies names.to_set().contains(
                k,
            ) by {
                let i = choose|i: int| 0 <= i < es.len() && (#[trigger] es[i]).0@ == k;
                assert(names[i] == k);
            }
            assert forall|k: Seq<char>| names.to_set().contains(k) implies self@.dom().contains(
                k,
            ) by {
                let i = choose|i: int| 0 <= i < names.len() && names[i] == k;
                assert(es[i].0@ == k);
            }
        }
    }

    /// The value under `name`, if there is one.
    pub fn get(&self, name: &str) -> (r: Option<&V>)
        ensures
            r matches Some(v) ==> self@.contains_key(name@) && self@[name@] == *v,
            r is None ==> !self@.contains_key(name@),
    {
        proof {
            use_type_invariant(self);
            lemma_entries_map(self.entries@);
        }
        let key = String::from_str(name);
        assert(!self@.contains_key(name@) ==> forall|k: int| 0 <= k < self.entries.len() ==> (
        #[trigger] self.entries@[k]).0@ != name@);
        let mut i: usize = 0;
        while i < self.entries.len()
            invariant
                i <= self.entries.len(),
                key@ == name@,
                distinct_names(self.entries@),
                forall|k: int| 0 <= k < i ==> (#[trigger] self.entries@[k]).0@ != key@,
            decreases self.entries.len() - i,
        {
            if self.entries[i].0 == key {
                proof {
                    lemma_entries_map(self.entries@);
                }
                return Some(&self.entries[i].1);
            }
            i = i + 1;
        }
        None
    }

    /// Maps `name` to `pos`; an earlier value under `name` is replaced.
    pub fn insert(&mut self, name: String, pos: V)
        ensures
            final(self)@ == old(self)@.insert(name@, pos),
    {
        proof {
            use_type_invariant(&*self);
            lemma_entries_map(self.entries@);
        }
        let ghost old_es = self.entries@;
        let ghost key = name@;
        let mut i: usize = 0;
        while i < self.entries.len()
            invariant
                i <= self.entries.len(),
                self.entries@ == old_es,
                old_es == old(self).entries@,
                key == name@,
                distinct_names(old_es),
                forall|k: int| 0 <= k < i ==> (#[trigger] self.entries@[k]).0@ != name@,
            decreases self.entries.len() - i,
        {
            if self.entries[i].0 == name {
                let mut es: Vec<(String, V)> = Vec::new();
                std::mem::swap(&mut es, &mut self.entries);
                es.set(i, (name, pos));
                let ghost new_es = es@;
                proof {
                    assert(new_es[i as int].0@ == key && new_es[i as int].1 == pos);
                    lemma_entries_update(old_es, i as int, new_es[i as int]);
                    assert(new_es == old_es.update(i as int, new_es[i as int]));
                }
                self.entries = es;
                return;
            }
            i = i + 1;
        }
        let mut es: Vec<(String, V)> = Vec::new();
                std::mem::swap(&mut es, &mut self.entries);
        es.push((name, pos));
        let ghost new_es = es@;
        proof {
            lemma_entries_push(old_es, new_es[old_es.len() as int]);
            assert(new_es == old_es.push(new_es[old_es.len() as int]));
        }
        self.entries = es;
    }

}

impl TextMap<usize> {
    /// The largest column position, or 0 when there is none larger.
    pub fn max_position(&self) -> (r: usize)
        ensures
            is_max_position(self@, r),
            r == max_position_of(self@),
    {
        proof {
            use_type_invariant(self);
            lemma_entries_map(self.entries@);
        }
        let mut acc: usize = 0;
        let mut i: usize = 0;
        while i < self.entries.len()
            invariant
                i <= self.entries.len(),
                forall|k: int| 0 <= k < i ==> (#[trigger] self.entries@[k]).1 <= acc,
                acc == 0 || exists|k: int| 0 <= k < i && (#[trigger] self.entries@[k]).1 == acc,
            decreases self.entries.len() - i,
        {
            if acc < self.entries[i].1 {
                acc = self.entries[i].1;
            }
            i = i + 1;
        }
        proof {
            assert forall|k: Seq<char>| #[trigger] self@.contains_key(k) implies self@[k] <= acc by {
                let j = choose|j: int| 0 <= j < self.entries@.len() && (#[trigger] self.entries@[j]).0@ == k;
                assert(self@[self.entries@[j].0@] == self.entries@[j].1);
            }
            if acc != 0 {
                let j = choose|j: int| 0 <= j < self.entries@.len() && (#[trigger] self.entries@[j]).1 == acc;
                assert(self@.contains_key(self.entries@[j].0@));
            }
            assert(is_max_position(self@, acc));
            lemma_max_position_unique(self@, acc, max_position_of(self@));
        }
        acc
    }

    /// The header described by a header line's columns: each name is given
    /// the position of its last occurrence.
    pub fn from_columns(cols: &Vec<String>) -> (h: Self)
        ensures
            h@ == columns_header(cols@.map_values(|c: String| c@)),
    {
        let ghost cv = cols@.map_values(|c: String| c@);
        let mut h = DataHeader::new();
        let mut i: usize = 0;
        while i < cols.len()
            invariant
                i <= cols.len(),
                cv == cols@.map_values(|c: String| c@),
                h@ == columns_header(cv.take(i as int)),
            decreases cols.len() - i,
        {
            assert(cv.take(i + 1).drop_last() == cv.take(i as int));
            h.insert(cols[i].clone(), i);
            i = i + 1;
        }
        assert(cv.take(i as int) == cv);
        h
    }
}

impl TextMap<usize> {
    /// The names of the columns, each once, in order of position.
    pub fn names_in_order(&self) -> (r: Vec<String>)
        ensures
            ordered_names(self@, r@.map_values(|s: String| s@)),
    {
        proof {
            use_type_invariant(self);
            lemma_entries_map(self.entries@);
        }
        let ghost es = self.entries@;
        let mut out: Vec<(String, usize)> = Vec::new();
        let mut i: usize = 0;
        while i < self.entries.len()
            invariant
                i <= self.entries.len(),
                es == self.entries@,
                distinct_names(es),
                sorted_by_pos(out@),
                distinct_names(out@),
                drawn_from(out@, es, i as int),
                covers(out@, es, i as int),
            decreases self.entries.len() - i,
        {
            let pos_i = self.entries[i].1;
            let mut p: usize = 0;
            while p < out.len() && out[p].1 <= pos_i
                invariant
                    p <= out.len(),
                    forall|a: int| 0 <= a < p ==> (#[trigger] out@[a]).1 <= pos_i,
                decreases out.len() - p,
            {
                p = p + 1;
            }
            let e = (self.entries[i].0.clone(), pos_i);
            proof {
                lemma_sorted_insert(out@, es, i as int, p as int, e);
            }
            out.insert(p, e);
            i = i + 1;
        }
        let mut names: Vec<String> = Vec::new();
        let mut j: usize = 0;
        while j < out.len()
            invariant
                j <= out.len(),
                names@.len() == j,
                forall|a: int| 0 <= a < j ==> (#[trigger] names@[a])@ == out@[a].0@,
            decreases out.len() - j,
        {
            names.push(out[j].0.clone());
            j = j + 1;
        }
        let ghost nv = names@.map_values(|s: String| s@);
        proof {
            assert forall|a: int| 0 <= a < nv.len() implies #[trigger] nv[a] == out@[a].0@
                && self@.contains_key(nv[a]) && self@[nv[a]] == out@[a].1 by {
                let k = choose|k: int|
                    0 <= k < es.len() && (#[trigger] es[k]).0@ == out@[a].0@ && es[k].1 == out@[a].1;
                assert(self@[es[k].0@] == es[k].1);
            }
            assert forall|a: int, b: int| 0 <= a < nv.len() && 0 <= b < nv.len() && a != b implies nv[a] != nv[b] by {
                assert(nv[a] == out@[a].0@ && nv[b] == out@[b].0@);
            }
            assert forall|k: Seq<char>| self@.contains_key(k) <==> nv.contains(k) by {
                if self@.contains_key(k) {
                    let kk = choose|kk: int| 0 <= kk < es.len() && (#[trigger] es[kk]).0@ == k;
                    let a = choose|a: int| 0 <= a < out@.len() && (#[trigger] out@[a]).0@ == es[kk].0@;
                    assert(nv[a] == k);
                }
                if nv.contains(k) {
                    let a = choose|a: int| 0 <= a < nv.len() && nv[a] == k;
                    assert(self@.contains_key(nv[a]));
                }
            }
            assert forall|a: int, b: int| 0 <= a < b < nv.len() implies self@[#[trigger] nv[a]] <= self@[#[trigger] nv[b]] by {
                assert(out@[a].1 <= out@[b].1);
            }
        }
        names
    }
}

impl TextMap<usize> {
    /// The header line: the names in order of position, joined by `;`.
    pub fn to_line(&self) -> (r: String)
        ensures
            exists|names: Seq<Seq<char>>| ordered_names(self@, names) && r@ == join(names, ';'),
    {
        let names = self.names_in_order();
        join_strings(&names, ';')
    }
}

/// A header line of distinct names gives each name its own index.
pub proof fn lemma_columns_header_distinct(names: Seq<Seq<char>>)
    requires
        names.no_duplicates(),
        names.len() <= usize::MAX + 1,
    ensures
        forall|k: Seq<char>| #[trigger] columns_header(names).contains_key(k) <==> names.contains(k),
        forall|i: int| 0 <= i < names.len() ==> columns_header(names)[#[trigger] names[i]] == i,
    decreases names.len(),
{
    if names.len() > 0 {
        let init = names.drop_last();
        assert(init.no_duplicates()) by {
            assert forall|a: int, b: int| 0 <= a < init.len() && 0 <= b < init.len() && a != b implies init[a] != init[b] by {
                assert(init[a] == names[a] && init[b] == names[b]);
            }
        }
        lemma_columns_header_distinct(init);
        assert(columns_header(names) == columns_header(init).insert(
            names.last(),
            (names.len() - 1) as usize,
        ));
        assert(names.last() == names[names.len() - 1]);
        assert forall|k: Seq<char>| #[trigger] columns_header(names).contains_key(k) <==> names.contains(k) by {
            if k == names.last() {
                assert(names.contains(k));
            }
            if names.contains(k) && k != names.last() {
                let a = choose|a: int| 0 <= a < names.len() && names[a] == k;
                assert(init[a] == k);
            }
            if init.contains(k) {
                let a = choose|a: int| 0 <= a < init.len() && init[a] == k;
                assert(names[a] == k);
            }
        }
        assert forall|i: int| 0 <= i < names.len() implies columns_header(names)[#[trigger] names[i]] == i by {
            if i < names.len() - 1 {
                assert(init[i] == names[i]);
                assert(names[i] != names.last());
                assert(init.contains(init[i]));
                assert(columns_header(init).contains_key(init[i]));
            }
        }
    }
}

/// A strictly increasing sequence of `n` naturals below `n` is `0, 1, ...`.
proof fn lemma_increasing_below_len(v: Seq<int>)
    requires
        forall|a: int, b: int| 0 <= a < b < v.len() ==> v[a] < v[b],
        forall|a: int| 0 <= a < v.len() ==> 0 <= #[trigger] v[a] < v.len(),
    ensures
        forall|a: int| 0 <= a < v.len() ==> #[trigger] v[a] == a,
{
    assert forall|a: int| 0 <= a < v.len() implies v[a] >= a by {
        lemma_increasing_lower(v, a);
    }
    assert forall|a: int| 0 <= a < v.len() implies v[a] <= a by {
        lemma_increasing_upper(v, a);
    }
}

proof fn lemma_increasing_lower(v: Seq<int>, a: int)
    requires
        0 <= a < v.len(),
        forall|x: int, y: int| 0 <= x < y < v.len() ==> v[x] < v[y],
        forall|x: int| 0 <= x < v.len() ==> 0 <= #[trigger] v[x] < v.len(),
    ensures
        v[a] >= a,
    decreases a,
{
    if a > 0 {
        lemma_increasing_lower(v, a - 1);
    }
}

proof fn lemma_increasing_upper(v: Seq<int>, a: int)
    requires
        0 <= a < v.len(),
        forall|x: int, y: int| 0 <= x < y < v.len() ==> v[x] < v[y],
        forall|x: int| 0 <= x < v.len() ==> 0 <= #[trigger] v[x] < v.len(),
    ensures
        v[a] <= a,
    decreases v.len() - a,
{
    if a < v.len() - 1 {
        lemma_increasing_upper(v, a + 1);
    }
}

/// A header whose columns sit at positions `0, 1, ...`, each at its own
/// position, and whose names hold no `;` and no surrounding whitespace, is
/// read back from its header line as the same header.
pub proof fn lemma_header_line_roundtrip(h: Map<Seq<char>, usize>, names: Seq<Seq<char>>)
    requires
        ordered_names(h, names),
        names.len() >= 1,
        forall|k: Seq<char>| #[trigger] h.contains_key(k) ==> h[k] < names.len(),
        forall|k1: Seq<char>, k2: Seq<char>|
            h.contains_key(k1) && h.contains_key(k2) && k1 != k2 ==> #[trigger] h[k1] != #[trigger] h[k2],
        forall|i: int| 0 <= i < names.len() ==> !(#[trigger] names[i]).contains(';'),
        forall|i: int| 0 <= i < names.len() ==> trim(#[trigger] names[i]) == names[i],
    ensures
        columns_header(csv_cols(join(names, ';'), ';')) == h,
{
    lemma_csv_cols_of_joined(names, ';');
    let v = names.map_values(|k: Seq<char>| h[k] as int);
    assert forall|a: int| 0 <= a < v.len() implies 0 <= #[trigger] v[a] < v.len() by {
        assert(names.contains(names[a]));
    }
    assert forall|a: int, b: int| 0 <= a < b < v.len() implies v[a] < v[b] by {
        assert(names.contains(names[a]) && names.contains(names[b]));
        assert(h[names[a]] <= h[names[b]]);
        assert(names[a] != names[b]);
    }
    lemma_increasing_below_len(v);
    assert(v[v.len() - 1] == v.len() - 1);
    lemma_columns_header_distinct(names);
    let c = columns_header(names);
    assert forall|k: Seq<char>| #[trigger] c.contains_key(k) implies c[k] == h[k] by {
        let a = choose|a: int| 0 <= a < names.len() && names[a] == k;
        assert(v[a] == a);
    }
    assert(c =~= h);
}

/// A header line of distinct names, read into a header and written back,
/// gives the same names in the same order: they are the only names in
/// order of position.
pub proof fn lemma_columns_reordered(cols: Seq<Seq<char>>, names: Seq<Seq<char>>)
    requires
        cols.no_duplicates(),
        cols.len() <= usize::MAX + 1,
        ordered_names(columns_header(cols), names),
    ensures
        names == cols,
{
    let m = columns_header(cols);
    lemma_columns_header_distinct(cols);
    assert(names.to_set() =~= cols.to_set()) by {
        assert forall|k: Seq<char>| names.to_set().contains(k) <==> cols.to_set().contains(k) by {
            assert(names.contains(k) <==> m.contains_key(k));
        }
    }
    names.unique_seq_to_set();
    cols.unique_seq_to_set();
    let v = names.map_values(|k: Seq<char>| m[k] as int);
    assert forall|a: int| 0 <= a < v.len() implies 0 <= #[trigger] v[a] < v.len() by {
        assert(names.contains(names[a]));
        let i = choose|i: int| 0 <= i < cols.len() && cols[i] == names[a];
        assert(m[cols[i]] == i);
    }
    assert forall|a: int, b: int| 0 <= a < b < v.len() implies v[a] < v[b] by {
        assert(names.contains(names[a]) && names.contains(names[b]));
        assert(m[names[a]] <= m[names[b]]);
        let i = choose|i: int| 0 <= i < cols.len() && cols[i] == names[a];
        let j = choose|j: int| 0 <= j < cols.len() && cols[j] == names[b];
        assert(m[cols[i]] == i && m[cols[j]] == j);
        assert(names[a] != names[b]);
    }
    lemma_increasing_below_len(v);
    assert forall|a: int| 0 <= a < names.len() implies names[a] == cols[a] by {
        assert(names.contains(names[a]));
        let i = choose|i: int| 0 <= i < cols.len() && cols[i] == names[a];
        assert(m[cols[i]] == i);
        assert(v[a] == a);
    }
    assert(names =~= cols);
}

impl Clone for TextMap<usize> {
    /// A copy naming the same columns at the same positions.
    fn clone(&self) -> (r: Self)
        ensures
            r@ == self@,
    {
        proof {
            use_type_invariant(self);
        }
        let mut es: Vec<(String, usize)> = Vec::new();
        let mut i: usize = 0;
        while i < self.entries.len()
            invariant
                i <= self.entries.len(),
                es@.len() == i,
                forall|k: int| 0 <= k < i ==> (#[trigger] es@[k]).0@ == self.entries@[k].0@
                    && es@[k].1 == self.entries@[k].1,
            decreases self.entries.len() - i,
        {
            es.push((self.entries[i].0.clone(), self.entries[i].1));
            i = i + 1;
        }
        proof {
            assert(distinct_names(es@)) by {
                assert forall|a: int, b: int|
                    0 <= a < es@.len() && 0 <= b < es@.len() && a != b implies (#[trigger] es@[a]).0@ != (
                    #[trigger] es@[b]).0@ by {
                    assert(self.entries@[a].0@ != self.entries@[b].0@);
                }
            }
            lemma_entries_map(es@);
            lemma_entries_map(self.entries@);
            assert forall|k: Seq<char>| entries_map(es@).contains_key(k) <==> entries_map(self.entries@).contains_key(k) by {
                if entries_map(es@).contains_key(k) {
                    let j = choose|j: int| 0 <= j < es@.len() && (#[trigger] es@[j]).0@ == k;
                    assert(self.entries@[j].0@ == k);
                }
                if entries_map(self.entries@).contains_key(k) {
                    let j = choose|j: int| 0 <= j < self.entries@.len() && (#[trigger] self.entries@[j]).0@ == k;
                    assert(es@[j].0@ == k);
                }
            }
            assert forall|k: Seq<char>| #[trigger] entries_map(es@).contains_key(k) implies entries_map(es@)[k] == entries_map(self.entries@)[k] by {
                let j = choose|j: int| 0 <= j < es@.len() && (#[trigger] es@[j]).0@ == k;
                assert(self.entries@[j].0@ == k);
            }
            assert(entries_map(es@) =~= entries_map(self.entries@));
        }
        TextMap { entries: es }
    }
}

} // verus!
