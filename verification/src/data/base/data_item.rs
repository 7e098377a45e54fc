//! A data item that keeps each field under its column name.

use vstd::prelude::*;
use crate::data::header::TextMap;
use crate::data::parse::parse_value;
use std::marker::PhantomData;

verus! {

/// One row of a data file, as the text of each field under its column
/// name.
pub struct DataItem<'a> {
    _marker: PhantomData<&'a ()>,
    _hash: TextMap<String>,
}

/// The fields of a row keyed by column name: the `i`-th column under the
/// `i`-th name, a later column taking the place of an earlier one with the
/// same name.
pub open spec fn row_fields(names: Seq<Seq<char>>, cols: Seq<Seq<char>>) -> Map<
    Seq<char>,
    Seq<char>,
>
    decreases cols.len(),
{
    if cols.len() == 0 {
        Map::empty()
    } else {
        row_fields(names, cols.drop_last()).insert(names[cols.len() - 1], cols.last())
    }
}

/// Every column of a row is kept under its header name, empty columns
/// included; a name holds the text of the last column under it; and no
/// other name is present.
pub proof fn lemma_row_fields_complete(names: Seq<Seq<char>>, cols: Seq<Seq<char>>)
    requires
        cols.len() <= names.len(),
    ensures
        forall|i: int| 0 <= i < cols.len() ==> #[trigger] row_fields(names, cols).contains_key(
            names[i],
        ),
        forall|i: int|
            0 <= i < cols.len() && (forall|j: int| i < j < cols.len() ==> names[j] != names[i])
                ==> #[trigger] row_fields(names, cols)[names[i]] == cols[i],
        forall|k: Seq<char>| #[trigger]
            row_fields(names, cols).contains_key(k) ==> exists|i: int|
                0 <= i < cols.len() && names[i] == k,
    decreases cols.len(),
{
    if cols.len() > 0 {
        let init = cols.drop_last();
        let n = cols.len() - 1;
        lemma_row_fields_complete(names, init);
        let prev = row_fields(names, init);
        assert(row_fields(names, cols) == prev.insert(names[n], cols.last()));
        assert forall|i: int| 0 <= i < cols.len() implies #[trigger] row_fields(
            names,
            cols,
        ).contains_key(names[i]) by {
            if i < n {
                assert(prev.contains_key(names[i]));
            }
        }
        assert forall|i: int|
            0 <= i < cols.len() && (forall|j: int| i < j < cols.len() ==> names[j] != names[i])
                implies #[trigger] row_fields(names, cols)[names[i]] == cols[i] by {
            if i < n {
                assert(names[n] != names[i]);
                assert(prev.contains_key(names[i]));
                assert(forall|j: int| i < j < init.len() ==> names[j] != names[i]);
                assert(prev[names[i]] == init[i]);
            } else {
                assert(cols.last() == cols[i]);
            }
        }
        assert forall|k: Seq<char>| #[trigger]
            row_fields(names, cols).contains_key(k) implies exists|i: int|
                0 <= i < cols.len() && names[i] == k by {
            if k != names[n] {
                assert(prev.contains_key(k));
                let i = choose|i: int| 0 <= i < init.len() && names[i] == k;
                assert(names[i] == k);
            } else {
                assert(names[n] == k);
            }
        }
    }
}

/// Pairs each column of a row with the header name at its position.  A
/// header shorter than the row would leave columns without a name, so the
/// row may be no longer than the header.
pub fn fields_of_row(header: &Vec<String>, cols: &Vec<String>) -> (r: TextMap<String>)
    requires
        cols.len() <= header.len(),
    ensures
        r@.map_values(|v: String| v@) == row_fields(
            header@.map_values(|h: String| h@),
            cols@.map_values(|c: String| c@),
        ),
{
    let ghost names = header@.map_values(|h: String| h@);
    let ghost cv = cols@.map_values(|c: String| c@);
    let mut m: TextMap<String> = TextMap::new();
    assert(m@.map_values(|v: String| v@) =~= row_fields(names, cv.take(0)));
    let mut i: usize = 0;
    while i < cols.len()
        invariant
            i <= cols.len() <= header.len(),
            names == header@.map_values(|h: String| h@),
            cv == cols@.map_values(|c: String| c@),
            m@.map_values(|v: String| v@) == row_fields(names, cv.take(i as int)),
        decreases cols.len() - i,
    {
        let ghost before = m@;
        let name = header[i].clone();
        let col = cols[i].clone();
        m.insert(name, col);
        assert(cv.take(i + 1).drop_last() == cv.take(i as int));
        assert(cv.take(i + 1).last() == cols@[i as int]@);
        assert(m@.map_values(|v: String| v@) =~= before.map_values(|v: String| v@).insert(
            names[i as int],
            cols@[i as int]@,
        ));
        i = i + 1;
    }
    assert(cv.take(i as int) == cv);
    m
}

impl<'a> DataItem<'a> {
    /// The text of each field, by column name.
    pub closed spec fn fields(&self) -> Map<Seq<char>, Seq<char>> {
        self._hash@.map_values(|v: String| v@)
    }

    /// An item with the fields of `hash`.
    pub fn new(hash: TextMap<String>) -> (r: Self)
        ensures
            r.fields() == hash@.map_values(|v: String| v@),
    {
        Self { _marker: PhantomData, _hash: hash }
    }

    /// The text of the column `name`, if the item has it.
    pub fn field(&self, name: &str) -> (r: Option<&String>)
        ensures
            match r {
                Some(v) => self.fields().contains_key(name@) && self.fields()[name@] == v@,
                None => !self.fields().contains_key(name@),
            },
    {
        self._hash.get(name)
    }

    /// The column `name` read as a `T`; `None` when the item lacks the
    /// column or its text does not parse.
    pub fn get<T: std::str::FromStr>(&self, name: &str) -> (r: Option<T>)
        ensures
            !self.fields().contains_key(name@) ==> r is None,
    {
        match self.field(name) {
            Some(v) => parse_value::<T>(v.as_str()),
            None => None,
        }
    }
}

} // verus!
