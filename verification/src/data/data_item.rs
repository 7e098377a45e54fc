//! A data item that reads its fields through a header it does not change.

use vstd::prelude::*;
use crate::data::header::DataHeader;
use crate::data::parse::parse_value;
use crate::types::UniRef;

verus! {

/// One row of a data file: the text of each field and the header that
/// names the fields.
pub struct DataItem<'a> {
    _header: UniRef<'a, DataHeader>,
    _value: Vec<String>,
}

impl<'a> DataItem<'a> {
    /// The header's map, unless the item has no header.
    pub closed spec fn header(&self) -> Option<Map<Seq<char>, usize>> {
        match self._header.value() {
            Some(h) => Some(h@),
            None => None,
        }
    }

    /// The text of each field, in order.
    pub closed spec fn values(&self) -> Seq<Seq<char>> {
        self._value@.map_values(|v: String| v@)
    }

    /// The number of fields.
    pub fn len(&self) -> (n: usize)
        ensures
            n == self.values().len(),
    {
        self._value.len()
    }

    /// The column `name`, if the header has it, is one of the item's
    /// fields.
    pub open spec fn column_in_range(&self, name: Seq<char>) -> bool {
        match self.header() {
            Some(h) => h.contains_key(name) ==> h[name] < self.values().len(),
            None => true,
        }
    }

    /// An item over `header` with the fields `value`.
    pub fn new(header: UniRef<'a, DataHeader>, value: Vec<String>) -> (r: Self)
        ensures
            r.header() == (match header.value() {
                Some(h) => Some(h@),
                None => None::<Map<Seq<char>, usize>>,
            }),
            r.values() == value@.map_values(|v: String| v@),
    {
        Self { _header: header, _value: value }
    }

    /// The text of the column `name`, unless the item has no header or the
    /// header lacks the column.
    pub fn field(&self, name: &str) -> (r: Option<&String>)
        requires
            self.column_in_range(name@),
        ensures
            match self.header() {
                Some(h) => if h.contains_key(name@) {
                    r matches Some(v) && v@ == self.values()[h[name@] as int]
                } else {
                    r is None
                },
                None => r is None,
            },
    {
        match self._header.get_ref() {
            Some(h) => match h.get(name) {
                Some(i) => Some(&self._value[*i]),
                None => None,
            },
            None => None,
        }
    }

    /// The column `name` read as a `T`; `None` when the item has no header,
    /// the header lacks the column, or the text does not parse.
    pub fn get<T: std::str::FromStr>(&self, name: &str) -> (r: Option<T>)
        requires
            self.column_in_range(name@),
        ensures
            !(self.header() matches Some(h) && h.contains_key(name@)) ==> r is None,
    {
        match self.field(name) {
            Some(v) => parse_value::<T>(v.as_str()),
            None => None,
        }
    }
}

} // verus!
